//! Finding out which suites a server takes under one protocol version.
//!
//! The server is offered all suites that it may know. It picks one, which is taken off the offer,
//! and is asked again, until it picks none or nothing is left.

use vstd::prelude::*;

use crate::retry;
use crate::retry::RetryError;
use crate::tls::cipher_suite;
use crate::tls::cipher_suite::Catalog;
use crate::tls::clienthello;
use crate::tls::clienthello::{HelloError, HelloModel, TLSClientHello};
use crate::tls::{CipherSuite, TlsVersion};

verus! {

/// How often the server is asked for one suite.
pub const MAX_ATTEMPTS: u32 = 3;

/// The first place of `code` in `codes`.
pub open spec fn first_index(codes: Seq<u16>, code: u16) -> int
    decreases codes.len(),
{
    if codes.len() == 0 || codes[0] == code {
        0
    } else {
        1 + first_index(codes.skip(1), code)
    }
}

/// `codes` without the first `code`: the last takes its place.
pub open spec fn without(codes: Seq<u16>, code: u16) -> Seq<u16> {
    if codes.contains(code) {
        codes.update(first_index(codes, code), codes.last()).drop_last()
    } else {
        codes
    }
}

/// What is left of the offer `codes` once the server has picked the suites `picked`.
pub open spec fn left_over(codes: Seq<u16>, picked: Seq<CipherSuite>) -> Seq<u16>
    decreases picked.len(),
{
    if picked.len() == 0 {
        codes
    } else {
        without(left_over(codes, picked.drop_last()), picked.last().code)
    }
}

/// The codes of suites.
pub open spec fn codes_of(suites: Seq<CipherSuite>) -> Seq<u16> {
    suites.map_values(|s: CipherSuite| s.code)
}

/// The state of a probe.
#[verifier::ext_equal]
pub struct ProbeModel {
    /// The server's name.
    pub sni: Seq<char>,
    pub version: TlsVersion,
    /// The suites that the probe knows.
    pub suites: Seq<CipherSuite>,
    /// The codes still on offer.
    pub remaining: Seq<u16>,
    /// The suites that the server has picked, in order.
    pub accepted: Seq<CipherSuite>,
    /// Whether the server has picked nothing from the last offer.
    pub refused: bool,
}

/// A probe of one protocol version.
pub struct Probe<'a> {
    sni: &'a str,
    version: TlsVersion,
    catalog: &'a Catalog,
    remaining: Vec<u16>,
    accepted: Vec<&'a CipherSuite>,
    refused: bool,
}

impl<'a> View for Probe<'a> {
    type V = ProbeModel;

    closed spec fn view(&self) -> ProbeModel {
        ProbeModel {
            sni: self.sni@,
            version: self.version,
            suites: self.catalog@,
            remaining: self.remaining@,
            accepted: self.accepted@.map_values(|s: &CipherSuite| *s),
            refused: self.refused,
        }
    }
}

/// Whether `payload` is the record of a hello with these contents, with a random that is fixed
/// unless `fresh_random` is set and is the system's otherwise, and for TLS 1.3 with a session id
/// and a key share that were drawn.
pub open spec fn is_hello(
    sni: Seq<char>,
    version: TlsVersion,
    ciphers: Seq<u16>,
    fresh_random: bool,
    payload: Seq<u8>,
) -> bool {
    exists|hello: HelloModel, random: Seq<u8>, session_id: Seq<u8>|
        {
            &&& hello.sni == sni
            &&& hello.version == version
            &&& hello.ciphers == ciphers
            &&& hello.key is Some <==> version == TlsVersion::Tls13
            &&& hello.key matches Some(key) ==> key.len() == 32 && clienthello::is_drawn_key(key)
            &&& random.len() == 32
            &&& !fresh_random ==> random == clienthello::fixed_random()
            &&& fresh_random ==> clienthello::is_system_random(random)
            &&& session_id.len() == 32
            &&& version == TlsVersion::Tls13 ==> clienthello::is_drawn_id(session_id)
            &&& payload == #[trigger] hello.record(random, session_id)
        }
}

/// Says what a hello that could not be built means: another attempt cannot succeed.
pub fn hello_failure(error: HelloError) -> (e: RetryError)
    ensures
        match error {
            HelloError::RandomUnavailable(why) => e@ == retry::Failure::Definitive(why@) && e
                == RetryError::Definitive(why),
        },
{
    match error {
        HelloError::RandomUnavailable(why) => RetryError::Definitive(why),
    }
}

impl<'a> Probe<'a> {
    #[verifier::type_invariant]
    spec fn remembers_the_offer(self) -> bool {
        &&& self.remaining@ == left_over(
            cipher_suite::offerable_codes(self.catalog@, self.version),
            self.accepted@.map_values(|s: &CipherSuite| *s),
        )
        &&& cipher_suite::ascending(self.catalog@)
    }

    /// Prepares a probe that offers all suites that may be offered under `version`.
    pub fn new(sni: &'a str, version: TlsVersion, catalog: &'a Catalog) -> (probe: Self)
        ensures
            probe@ == (ProbeModel {
                sni: sni@,
                version,
                suites: catalog@,
                remaining: cipher_suite::offerable_codes(catalog@, version),
                accepted: seq![],
                refused: false,
            }),
    {
        let suites = catalog.suites();
        let remaining = cipher_suite::offerable_codes_for_version(catalog, version);
        let accepted: Vec<&'a CipherSuite> = Vec::new();
        assert(accepted@.map_values(|s: &CipherSuite| *s) =~= seq![]);
        Probe { sni, version, catalog, remaining, accepted, refused: false }
    }

    /// Returns the version that is probed.
    pub fn version(&self) -> (v: TlsVersion)
        ensures
            v == self@.version,
    {
        self.version
    }

    /// Returns the catalog.
    pub fn catalog(&self) -> (catalog: &'a Catalog)
        ensures
            catalog@ == self@.suites,
    {
        self.catalog
    }

    /// Returns whether the server has to be asked again.
    pub fn goes_on(&self) -> (r: bool)
        ensures
            r == (!self@.refused && self@.remaining.len() > 0),
    {
        !self.refused && self.remaining.len() > 0
    }

    /// Builds the hello that offers what remains; its random is drawn anew if `fresh_random` is
    /// set, and fixed otherwise.
    pub fn send_hello(&self, fresh_random: bool) -> (r: Result<Vec<u8>, RetryError>)
        ensures
            !fresh_random ==> r is Ok,
            r matches Ok(payload) ==> is_hello(
                self@.sni,
                self@.version,
                self@.remaining,
                fresh_random,
                payload@,
            ),
            r matches Err(e) ==> e@ is Definitive,
            r matches Err(e) ==> (e matches RetryError::Definitive(why)
                && clienthello::is_random_failure(why)),
    {
        let hello = TLSClientHello::new(self.sni, self.version, self.remaining.as_slice());
        let hello = if fresh_random {
            hello.with_fresh_random()
        } else {
            hello
        };
        let ghost model = hello@;
        match hello.build_tls_payload() {
            Ok(payload) => {
                proof {
                    let (random, session_id) = choose|random: Seq<u8>, session_id: Seq<u8>|
                        {
                            &&& random.len() == 32
                            &&& session_id.len() == 32
                            &&& !fresh_random ==> random == clienthello::fixed_random()
                            &&& fresh_random ==> clienthello::is_system_random(random)
                            &&& model.version == TlsVersion::Tls13 ==> clienthello::is_drawn_id(
                                session_id,
                            )
                            &&& payload@ == #[trigger] model.record(random, session_id)
                        };
                    assert(payload@ == model.record(random, session_id));
                }
                Ok(payload)
            },
            Err(error) => Err(hello_failure(error)),
        }
    }

    /// Takes in what came of an offer: the suite that the server has picked, or that it has picked
    /// none.
    pub fn answered(self, answer: Option<&'a CipherSuite>) -> (probe: Self)
        ensures
            probe@ == match answer {
                Some(suite) => ProbeModel {
                    remaining: without(self@.remaining, suite.code),
                    accepted: self@.accepted.push(*suite),
                    ..self@
                },
                None => ProbeModel { refused: true, ..self@ },
            },
    {
        proof {
            use_type_invariant(&self);
        }
        let Probe { sni, version, catalog, mut remaining, mut accepted, refused } = self;
        let suite = match answer {
            None => {
                return Probe { sni, version, catalog, remaining, accepted, refused: true };
            },
            Some(suite) => suite,
        };
        let ghost offered = remaining@;
        let ghost picked = accepted@.map_values(|s: &CipherSuite| *s);
        let mut i: usize = 0;
        assert(offered.skip(0) =~= offered);
        while i < remaining.len() && remaining[i] != suite.code
            invariant
                i <= remaining@.len(),
                remaining@ == offered,
                first_index(offered, suite.code) == i + first_index(
                    offered.skip(i as int),
                    suite.code,
                ),
                forall|j: int| 0 <= j < i ==> offered[j] != suite.code,
            decreases remaining@.len() - i,
        {
            assert(offered.skip(i as int).skip(1) =~= offered.skip(i + 1));
            assert(offered.skip(i as int)[0] == offered[i as int]);
            i = i + 1;
        }
        if i < remaining.len() {
            assert(offered.skip(i as int)[0] == offered[i as int]);
            remaining.swap_remove(i);
        }
        assert(remaining@ =~= without(offered, suite.code));
        accepted.push(suite);
        proof {
            let now = accepted@.map_values(|s: &CipherSuite| *s);
            assert(now =~= picked.push(*suite));
            assert(now.drop_last() =~= picked);
        }
        Probe { sni, version, catalog, remaining, accepted, refused }
    }

    /// Returns the suites that the server has picked, if it has picked any.
    pub fn accepted_ciphers(self) -> (r: Option<Vec<&'a CipherSuite>>)
        ensures
            match r {
                Some(suites) => suites@.len() > 0 && suites@.map_values(|s: &CipherSuite| *s)
                    == self@.accepted,
                None => self@.accepted.len() == 0,
            },
            self@.remaining == left_over(
                cipher_suite::offerable_codes(self@.suites, self@.version),
                self@.accepted,
            ),
            cipher_suite::ascending(self@.suites),
    {
        proof {
            use_type_invariant(&self);
        }
        if self.accepted.len() == 0 {
            None
        } else {
            Some(self.accepted)
        }
    }
}

// ---------------------------------------------------------------------------
// Laws
// ---------------------------------------------------------------------------

/// Whether a server that takes the suites `takes` may pick `picked` from the offer `offer`, one
/// after the other, each from what is left of the offer.
pub open spec fn may_pick(offer: Seq<u16>, picked: Seq<CipherSuite>, takes: Set<u16>) -> bool {
    forall|k: int|
        0 <= k < picked.len() ==> takes.contains((#[trigger] picked[k]).code) && left_over(
            offer,
            picked.take(k),
        ).contains(picked[k].code)
}

/// Whether nothing is left of the offer that a server takes.
pub open spec fn picked_all(offer: Seq<u16>, picked: Seq<CipherSuite>, takes: Set<u16>) -> bool {
    forall|c: u16| #[trigger] left_over(offer, picked).contains(c) ==> !takes.contains(c)
}

proof fn first_index_finds(codes: Seq<u16>, code: u16)
    requires
        codes.contains(code),
    ensures
        0 <= first_index(codes, code) < codes.len(),
        codes[first_index(codes, code)] == code,
    decreases codes.len(),
{
    if codes[0] != code {
        let i = choose|i: int| 0 <= i < codes.len() && codes[i] == code;
        assert(codes.skip(1)[i - 1] == code);
        first_index_finds(codes.skip(1), code);
    }
}

/// Taking a code off an offer without repetitions takes off that code and no other.
pub proof fn one_code_is_taken_off(codes: Seq<u16>, code: u16)
    requires
        codes.no_duplicates(),
        codes.contains(code),
    ensures
        without(codes, code).no_duplicates(),
        without(codes, code).len() == codes.len() - 1,
        forall|c: u16| #[trigger]
            without(codes, code).contains(c) <==> codes.contains(c) && c != code,
{
    first_index_finds(codes, code);
    let i = first_index(codes, code);
    let less = without(codes, code);
    assert(forall|j: int|
        0 <= j < less.len() ==> #[trigger] less[j] == if j == i {
            codes.last()
        } else {
            codes[j]
        });
    assert forall|c: u16| #[trigger] less.contains(c) <==> codes.contains(c) && c != code by {
        if codes.contains(c) && c != code {
            let j = choose|j: int| 0 <= j < codes.len() && codes[j] == c;
            if j == codes.len() - 1 {
                assert(less[i] == c);
            } else {
                assert(less[j] == c);
            }
        }
        if less.contains(c) {
            let j = choose|j: int| 0 <= j < less.len() && less[j] == c;
            assert(codes.contains(c));
        }
    }
}

proof fn one_more_code(codes: Seq<u16>, code: u16)
    requires
        codes.no_duplicates(),
        !codes.contains(code),
    ensures
        codes.push(code).no_duplicates(),
        forall|c: u16| #[trigger] codes.push(code).contains(c) <==> codes.contains(c) || c == code,
{
    let more = codes.push(code);
    assert forall|c: u16| #[trigger] more.contains(c) <==> codes.contains(c) || c == code by {
        if codes.contains(c) {
            let j = choose|j: int| 0 <= j < codes.len() && codes[j] == c;
            assert(more[j] == c);
        }
        assert(more[codes.len() as int] == code);
    }
}

proof fn earlier_picks_are_picks(offer: Seq<u16>, picked: Seq<CipherSuite>, takes: Set<u16>)
    requires
        picked.len() > 0,
        may_pick(offer, picked, takes),
    ensures
        may_pick(offer, picked.drop_last(), takes),
        left_over(offer, picked.drop_last()).contains(picked.last().code),
        codes_of(picked) == codes_of(picked.drop_last()).push(picked.last().code),
{
    let before = picked.drop_last();
    assert forall|k: int| 0 <= k < before.len() implies takes.contains(
        (#[trigger] before[k]).code,
    ) && left_over(offer, before.take(k)).contains(before[k].code) by {
        assert(before[k] == picked[k]);
        assert(before.take(k) =~= picked.take(k));
    }
    let n = picked.len() - 1;
    assert(picked.take(n) =~= before);
    assert(left_over(offer, picked.take(n)).contains(picked[n].code));
    assert(codes_of(picked) =~= codes_of(before).push(picked.last().code));
}

/// While the server picks from what is left, nothing is lost: every code of the offer is either
/// left or picked, never both and never twice. So the server can pick no more often than there are
/// codes on offer.
#[verifier::spinoff_prover]
pub proof fn offer_is_used_up(offer: Seq<u16>, picked: Seq<CipherSuite>, takes: Set<u16>)
    requires
        offer.no_duplicates(),
        may_pick(offer, picked, takes),
    ensures
        left_over(offer, picked).no_duplicates(),
        codes_of(picked).no_duplicates(),
        left_over(offer, picked).len() + picked.len() == offer.len(),
        forall|c: u16| #[trigger]
            left_over(offer, picked).contains(c) <==> offer.contains(c) && !codes_of(
                picked,
            ).contains(c),
        forall|c: u16| #[trigger] codes_of(picked).contains(c) ==> offer.contains(c),
    decreases picked.len(),
{
    if picked.len() > 0 {
        let before = picked.drop_last();
        let code = picked.last().code;
        earlier_picks_are_picks(offer, picked, takes);
        offer_is_used_up(offer, before, takes);
        one_code_is_taken_off(left_over(offer, before), code);
        one_more_code(codes_of(before), code);
    }
}

/// A probe finds exactly the suites that the server takes, of those that may be offered under the
/// version, and each of them once: if the server picks from each offer a suite that it takes, as
/// long as there is one.
pub proof fn probe_finds_what_the_server_takes(
    suites: Seq<CipherSuite>,
    version: TlsVersion,
    picked: Seq<CipherSuite>,
    takes: Set<u16>,
)
    requires
        cipher_suite::ascending(suites),
        may_pick(cipher_suite::offerable_codes(suites, version), picked, takes),
        picked_all(cipher_suite::offerable_codes(suites, version), picked, takes),
    ensures
        codes_of(picked).no_duplicates(),
        forall|c: u16| #[trigger]
            codes_of(picked).contains(c) <==> takes.contains(c) && cipher_suite::offerable_codes(
                suites,
                version,
            ).contains(c),
{
    let offer = cipher_suite::offerable_codes(suites, version);
    cipher_suite::offer_is_complete_and_clean(suites, version);
    assert forall|i: int, j: int| 0 <= i < offer.len() && 0 <= j < offer.len() && i != j implies offer[i]
        != offer[j] by {
        if i < j {
            assert(offer[i] < offer[j]);
        } else {
            assert(offer[j] < offer[i]);
        }
    }
    offer_is_used_up(offer, picked, takes);
    assert forall|c: u16| #[trigger] codes_of(picked).contains(c) <==> takes.contains(c)
        && offer.contains(c) by {
        if codes_of(picked).contains(c) {
            let k = choose|k: int| 0 <= k < picked.len() && codes_of(picked)[k] == c;
            assert(takes.contains(picked[k].code));
        }
        if takes.contains(c) && offer.contains(c) && !codes_of(picked).contains(c) {
            assert(left_over(offer, picked).contains(c));
        }
    }
}

/// A suite that was not on offer leaves the offer as it is.
pub proof fn strange_picks_leave_the_offer(offer: Seq<u16>, suite: CipherSuite)
    requires
        !offer.contains(suite.code),
    ensures
        without(offer, suite.code) == offer,
{
}

} // verus!
