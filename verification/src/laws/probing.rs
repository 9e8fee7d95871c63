//! Promises about probing one protocol version.

use vstd::prelude::*;

use crate::laws::catalog as listing;
use crate::laws::hello as record;
use crate::probe;
use crate::probe::Probe;
use crate::retry::RetryError;
use crate::tls::cipher_suite;
use crate::tls::cipher_suite::Catalog;
use crate::tls::clienthello;
use crate::tls::clienthello::{HelloError, HelloModel};
use crate::tls::{CipherSuite, TlsVersion};

verus! {

/// Whether `states` are the states of a probe of version `v` from which the server picks `picks`,
/// one after the other.
pub open spec fn goes_through<'a>(
    sni: &'a str,
    v: TlsVersion,
    catalog: &'a Catalog,
    picks: Seq<&'a CipherSuite>,
    states: Seq<Probe<'a>>,
) -> bool {
    &&& states.len() == picks.len() + 1
    &&& call_ensures(Probe::new, (sni, v, catalog), states[0])
    &&& forall|i: int|
        0 <= i < picks.len() ==> call_ensures(
            Probe::answered,
            (states[i], Some(#[trigger] picks[i])),
            states[i + 1],
        )
}

/// Whether some suite of `picks` has this code.
pub open spec fn is_picked(picks: Seq<&CipherSuite>, code: u16) -> bool {
    exists|i: int| 0 <= i < picks.len() && (#[trigger] picks[i]).code == code
}

/// Whether a code is still to be offered: a suite of the catalog that lists the version has it, it
/// is none that is never offered, and the server has not picked it.
pub open spec fn is_open(
    suites: Seq<CipherSuite>,
    v: TlsVersion,
    picks: Seq<&CipherSuite>,
    code: u16,
) -> bool {
    &&& listing::is_listed(suites, v, code)
    &&& !listing::is_held_back(code)
    &&& !is_picked(picks, code)
}

/// Whether `codes` are the codes that are still to be offered, each once.
pub open spec fn is_offer(
    codes: Seq<u16>,
    suites: Seq<CipherSuite>,
    v: TlsVersion,
    picks: Seq<&CipherSuite>,
) -> bool {
    &&& forall|c: u16| #[trigger] codes.contains(c) <==> is_open(suites, v, picks, c)
    &&& forall|i: int, j: int| 0 <= i < j < codes.len() ==> codes[i] != codes[j]
}

pub(crate) proof fn first_offer(suites: Seq<CipherSuite>, v: TlsVersion)
    requires
        cipher_suite::ascending(suites),
    ensures
        is_offer(cipher_suite::offerable_codes(suites, v), suites, v, seq![]),
{
    let codes = cipher_suite::offerable_codes(suites, v);
    listing::suites_are_offered_under_each_version_they_list(suites, v);
    assert forall|c: u16| #[trigger] codes.contains(c) <==> is_open(suites, v, seq![], c) by {
        if codes.contains(c) {
            let k = choose|k: int| 0 <= k < codes.len() && codes[k] == c;
            assert(listing::is_listed(suites, v, codes[k]));
        }
        if is_open(suites, v, seq![], c) {
            let i = choose|i: int|
                0 <= i < suites.len() && (#[trigger] suites[i]).code == c && listing::lists(
                    suites[i],
                    v,
                );
            let j = choose|j: int|
                0 <= j < suites[i].tls_versions@.len() && #[trigger] suites[i].tls_versions@[j]
                    == v;
            assert(suites[i].tls_versions@[j] == v);
        }
    }
}

proof fn next_offer(
    codes: Seq<u16>,
    suites: Seq<CipherSuite>,
    v: TlsVersion,
    picks: Seq<&CipherSuite>,
    pick: &CipherSuite,
)
    requires
        is_offer(codes, suites, v, picks),
    ensures
        is_offer(probe::without(codes, pick.code), suites, v, picks.push(pick)),
{
    let less = probe::without(codes, pick.code);
    let more = picks.push(pick);
    if codes.contains(pick.code) {
        probe::one_code_is_taken_off(codes, pick.code);
    }
    assert forall|c: u16| #[trigger] less.contains(c) <==> is_open(suites, v, more, c) by {
        assert(is_picked(more, c) <==> is_picked(picks, c) || c == pick.code) by {
            if is_picked(more, c) && c != pick.code {
                let i = choose|i: int| 0 <= i < more.len() && (#[trigger] more[i]).code == c;
                assert(picks[i].code == c);
            }
            if is_picked(picks, c) {
                let i = choose|i: int| 0 <= i < picks.len() && (#[trigger] picks[i]).code == c;
                assert(more[i].code == c);
            }
            assert(more[picks.len() as int] == pick);
        }
        assert(codes.contains(c) <==> is_open(suites, v, picks, c));
    }
    assert forall|i: int, j: int| 0 <= i < j < less.len() implies less[i] != less[j] by {
        if codes.contains(pick.code) {
            assert(less.no_duplicates());
        }
    }
}

pub(crate) proof fn state_of<'a>(
    sni: &'a str,
    v: TlsVersion,
    catalog: &'a Catalog,
    picks: Seq<&'a CipherSuite>,
    states: Seq<Probe<'a>>,
)
    requires
        goes_through(sni, v, catalog, picks, states),
        cipher_suite::ascending(catalog@),
    ensures
        states.last()@.sni == sni@,
        states.last()@.version == v,
        states.last()@.suites == catalog@,
        states.last()@.accepted == picks.map_values(|s: &CipherSuite| *s),
        !states.last()@.refused,
        is_offer(states.last()@.remaining, catalog@, v, picks),
    decreases picks.len(),
{
    if picks.len() == 0 {
        first_offer(catalog@, v);
        assert(picks =~= seq![]);
        assert(states.last() == states[0]);
        assert(picks.map_values(|s: &CipherSuite| *s) =~= seq![]);
    } else {
        let before = picks.drop_last();
        let n = picks.len() - 1;
        let earlier = states.drop_last();
        assert forall|i: int| 0 <= i < before.len() implies call_ensures(
            Probe::answered,
            (earlier[i], Some(#[trigger] before[i])),
            earlier[i + 1],
        ) by {
            assert(before[i] == picks[i]);
        }
        state_of(sni, v, catalog, before, earlier);
        assert(call_ensures(Probe::answered, (states[n], Some(picks[n])), states[n + 1]));
        assert(earlier.last() == states[n]);
        assert(before.push(picks[n]) =~= picks);
        next_offer(states[n]@.remaining, catalog@, v, before, picks[n]);
        assert(picks.map_values(|s: &CipherSuite| *s) =~= before.map_values(
            |s: &CipherSuite| *s,
        ).push(*picks[n]));
    }
}

/// After each pick, the hello that a probe sends offers exactly the codes that are still to be
/// offered. It is made out to the server's name and the version that is probed. Its random is 32
/// times 0x42, or the system's if a fresh one is asked for. It can fail only if a fresh random is
/// asked for and the system has none, and then no other attempt is worth it.
pub proof fn hellos_offer_what_is_open<'a>(
    sni: &'a str,
    v: TlsVersion,
    catalog: &'a Catalog,
    suites: &Vec<CipherSuite>,
    picks: Seq<&'a CipherSuite>,
    states: Seq<Probe<'a>>,
    fresh: bool,
    r: Result<Vec<u8>, RetryError>,
)
    requires
        goes_through(sni, v, catalog, picks, states),
        call_ensures(Catalog::suites, (catalog,), suites),
        call_ensures(Probe::send_hello, (&states.last(), fresh), r),
    ensures
        match r {
            Ok(payload) => is_offering(payload@, sni@, v, suites@, picks, fresh),
            Err(e) => fresh && (e matches RetryError::Definitive(why)
                && clienthello::is_random_failure(why)),
        },
{
    state_of(sni, v, catalog, picks, states);
    if let Ok(payload) = r {
        let codes = states.last()@.remaining;
        let (hello, random, id) = choose|hello: HelloModel, random: Seq<u8>, id: Seq<u8>|
            {
                &&& hello.sni == sni@
                &&& hello.version == v
                &&& hello.ciphers == codes
                &&& hello.key is Some <==> v == TlsVersion::Tls13
                &&& hello.key matches Some(key) ==> key.len() == 32 && clienthello::is_drawn_key(
                    key,
                )
                &&& random.len() == 32
                &&& !fresh ==> random == clienthello::fixed_random()
                &&& fresh ==> clienthello::is_system_random(random)
                &&& id.len() == 32
                &&& v == TlsVersion::Tls13 ==> clienthello::is_drawn_id(id)
                &&& payload@ == #[trigger] hello.record(random, id)
            };
        record::records_have_this_form(hello, random, id);
        assert(record::is_hello_record(payload@, sni@, v, codes, random, id, hello.key->0));
    }
}

/// Whether `payload` is a hello that offers what is still to be offered.
pub open spec fn is_offering(
    payload: Seq<u8>,
    sni: Seq<char>,
    v: TlsVersion,
    suites: Seq<CipherSuite>,
    picks: Seq<&CipherSuite>,
    fresh: bool,
) -> bool {
    exists|codes: Seq<u16>, random: Seq<u8>, id: Seq<u8>, key: Seq<u8>|
        {
            &&& is_offer(codes, suites, v, picks)
            &&& random.len() == 32
            &&& !fresh ==> forall|i: int| 0 <= i < 32 ==> random[i] == 0x42
            &&& fresh ==> clienthello::is_system_random(random)
            &&& v == TlsVersion::Tls13 ==> clienthello::is_drawn_id(id)
                && clienthello::is_drawn_key(key)
            &&& #[trigger] record::is_hello_record(payload, sni, v, codes, random, id, key)
        }
}

/// A probe asks on exactly as long as a code is still to be offered, and it knows its version and
/// its catalog.
pub proof fn probes_go_on_while_a_code_is_open<'a>(
    sni: &'a str,
    v: TlsVersion,
    catalog: &'a Catalog,
    suites: &Vec<CipherSuite>,
    picks: Seq<&'a CipherSuite>,
    states: Seq<Probe<'a>>,
    on: bool,
    version: TlsVersion,
    known: &'a Catalog,
)
    requires
        goes_through(sni, v, catalog, picks, states),
        call_ensures(Catalog::suites, (catalog,), suites),
        call_ensures(Probe::goes_on, (&states.last(),), on),
        call_ensures(Probe::version, (&states.last(),), version),
        call_ensures(Probe::catalog, (&states.last(),), known),
    ensures
        on <==> exists|c: u16| is_open(suites@, v, picks, c),
        version == v,
        known@ == suites@,
{
    state_of(sni, v, catalog, picks, states);
    let codes = states.last()@.remaining;
    if on {
        assert(codes.contains(codes[0]));
        assert(is_open(suites@, v, picks, codes[0]));
    }
    if exists|c: u16| is_open(suites@, v, picks, c) {
        let c = choose|c: u16| is_open(suites@, v, picks, c);
        assert(codes.contains(c));
    }
}

/// A probe has found the suites that the server has picked, in the order of the picks, and no
/// others; if the server has picked none, it has found none. A refusal changes nothing of this but
/// ends the probe.
pub proof fn probes_find_what_is_picked<'a>(
    sni: &'a str,
    v: TlsVersion,
    catalog: &'a Catalog,
    suites: &Vec<CipherSuite>,
    picks: Seq<&'a CipherSuite>,
    states: Seq<Probe<'a>>,
    found: Option<Vec<&'a CipherSuite>>,
    ended: Probe<'a>,
    found_at_end: Option<Vec<&'a CipherSuite>>,
    on: bool,
    version: TlsVersion,
)
    requires
        goes_through(sni, v, catalog, picks, states),
        call_ensures(Catalog::suites, (catalog,), suites),
        call_ensures(Probe::accepted_ciphers, (states.last(),), found),
        call_ensures(Probe::answered, (states.last(), None), ended),
        call_ensures(Probe::accepted_ciphers, (ended,), found_at_end),
        call_ensures(Probe::goes_on, (&ended,), on),
        call_ensures(Probe::version, (&ended,), version),
    ensures
        is_found(found, picks),
        is_found(found_at_end, picks),
        !on,
        version == v,
{
    state_of(sni, v, catalog, picks, states);
    found_suites(found, picks);
    found_suites(found_at_end, picks);
}

/// Whether `found` are the suites `picks`, or none if there are no picks.
pub open spec fn is_found(found: Option<Vec<&CipherSuite>>, picks: Seq<&CipherSuite>) -> bool {
    match found {
        Some(suites) => {
            &&& picks.len() > 0
            &&& suites@.len() == picks.len()
            &&& forall|i: int| 0 <= i < picks.len() ==> *(#[trigger] suites@[i]) == *picks[i]
        },
        None => picks.len() == 0,
    }
}

proof fn found_suites(found: Option<Vec<&CipherSuite>>, picks: Seq<&CipherSuite>)
    requires
        match found {
            Some(suites) => suites@.len() > 0 && suites@.map_values(|s: &CipherSuite| *s)
                == picks.map_values(|s: &CipherSuite| *s),
            None => picks.map_values(|s: &CipherSuite| *s).len() == 0,
        },
    ensures
        is_found(found, picks),
{
    if let Some(suites) = found {
        let all = picks.map_values(|s: &CipherSuite| *s);
        assert(suites@.len() == all.len());
        assert forall|i: int| 0 <= i < picks.len() implies *(#[trigger] suites@[i])
            == *picks[i] by {
            assert(all[i] == *picks[i]);
            assert(suites@.map_values(|s: &CipherSuite| *s)[i] == *suites@[i]);
        }
    }
}

/// Whatever a probe has been through, its hello carries its offer in order.
pub proof fn hellos_carry_the_offer<'a>(probe: Probe<'a>, fresh: bool, payload: Vec<u8>)
    requires
        call_ensures(
            Probe::send_hello,
            (&probe, fresh),
            Ok::<Vec<u8>, RetryError>(payload),
        ),
    ensures
        exists|random: Seq<u8>, id: Seq<u8>, key: Seq<u8>| #[trigger]
            record::is_hello_record(
                payload@,
                probe@.sni,
                probe@.version,
                probe@.remaining,
                random,
                id,
                key,
            ) && (!fresh ==> forall|i: int| 0 <= i < 32 ==> random[i] == 0x42),
{
    let (hello, random, id) = choose|hello: HelloModel, random: Seq<u8>, id: Seq<u8>|
        {
            &&& hello.sni == probe@.sni
            &&& hello.version == probe@.version
            &&& hello.ciphers == probe@.remaining
            &&& hello.key is Some <==> probe@.version == TlsVersion::Tls13
            &&& hello.key matches Some(key) ==> key.len() == 32 && clienthello::is_drawn_key(key)
            &&& random.len() == 32
            &&& !fresh ==> random == clienthello::fixed_random()
            &&& fresh ==> clienthello::is_system_random(random)
            &&& id.len() == 32
            &&& probe@.version == TlsVersion::Tls13 ==> clienthello::is_drawn_id(id)
            &&& payload@ == #[trigger] hello.record(random, id)
        };
    record::records_have_this_form(hello, random, id);
}

proof fn first_place(codes: Seq<u16>, code: u16, i: int)
    requires
        0 <= i < codes.len(),
        codes[i] == code,
        forall|j: int| 0 <= j < i ==> codes[j] != code,
    ensures
        probe::first_index(codes, code) == i,
    decreases i,
{
    if i > 0 {
        assert(codes[0] != code);
        assert forall|j: int| 0 <= j < i - 1 implies codes.skip(1)[j] != code by {
            assert(codes.skip(1)[j] == codes[j + 1]);
        }
        first_place(codes.skip(1), code, i - 1);
    }
}

/// The last code on offer takes the place of the one that is picked; the others keep theirs. The
/// offer begins in ascending order, and a pick that is not on offer leaves it as it is.
pub proof fn last_codes_take_the_place_of_picks<'a>(
    sni: &'a str,
    v: TlsVersion,
    catalog: &'a Catalog,
    suites: &Vec<CipherSuite>,
    first: Probe<'a>,
    probe: Probe<'a>,
    pick: &'a CipherSuite,
    next: Probe<'a>,
    i: int,
)
    requires
        call_ensures(Catalog::suites, (catalog,), suites),
        call_ensures(Probe::new, (sni, v, catalog), first),
        call_ensures(Probe::answered, (probe, Some(pick)), next),
    ensures
        forall|k: int, l: int|
            0 <= k < l < first@.remaining.len() ==> first@.remaining[k] < first@.remaining[l],
        !probe@.remaining.contains(pick.code) ==> next@.remaining == probe@.remaining,
        0 <= i < probe@.remaining.len() && probe@.remaining[i] == pick.code && (forall|j: int|
            0 <= j < i ==> probe@.remaining[j] != pick.code) ==> {
            &&& next@.remaining.len() == probe@.remaining.len() - 1
            &&& forall|k: int|
                0 <= k < next@.remaining.len() ==> next@.remaining[k] == if k == i {
                    probe@.remaining.last()
                } else {
                    probe@.remaining[k]
                }
        },
{
    listing::suites_are_offered_under_each_version_they_list(catalog@, v);
    let codes = probe@.remaining;
    if 0 <= i < codes.len() && codes[i] == pick.code && (forall|j: int|
        0 <= j < i ==> codes[j] != pick.code) {
        first_place(codes, pick.code, i);
        assert(codes.contains(pick.code));
    }
}

/// Each answer with a pick adds that pick to what was found, and changes neither the name, the
/// version nor the catalog; a refusal adds nothing and takes nothing off the offer. A probe that
/// has ended stays so.
pub proof fn every_pick_is_kept<'a>(
    probe: Probe<'a>,
    answer: Option<&'a CipherSuite>,
    next: Probe<'a>,
    on: bool,
    still_on: bool,
)
    requires
        call_ensures(Probe::answered, (probe, answer), next),
        call_ensures(Probe::goes_on, (&probe,), on),
        call_ensures(Probe::goes_on, (&next,), still_on),
    ensures
        next@.sni == probe@.sni,
        next@.version == probe@.version,
        next@.suites == probe@.suites,
        match answer {
            Some(pick) => {
                &&& next@.accepted.len() == probe@.accepted.len() + 1
                &&& next@.accepted.last() == *pick
                &&& next@.accepted.drop_last() == probe@.accepted
                &&& next@.refused == probe@.refused
            },
            None => next@.accepted == probe@.accepted && next@.remaining == probe@.remaining
                && !still_on,
        },
        !on ==> !still_on,
{
    if let Some(pick) = answer {
        assert(next@.accepted.drop_last() =~= probe@.accepted);
        assert(probe@.remaining.len() == 0 ==> !probe@.remaining.contains(pick.code));
    }
}

/// What was found is what was picked, whatever the probe has been through.
pub proof fn what_was_found_is_told<'a>(
    probe: Probe<'a>,
    found: Option<Vec<&'a CipherSuite>>,
)
    requires
        call_ensures(Probe::accepted_ciphers, (probe,), found),
    ensures
        found is None <==> probe@.accepted.len() == 0,
        found matches Some(suites) ==> {
            &&& suites@.len() == probe@.accepted.len()
            &&& forall|i: int|
                0 <= i < suites@.len() ==> *(#[trigger] suites@[i]) == probe@.accepted[i]
        },
{
    if let Some(suites) = found {
        let all = suites@.map_values(|s: &CipherSuite| *s);
        assert(all == probe@.accepted);
        assert forall|i: int| 0 <= i < suites@.len() implies *(#[trigger] suites@[i])
            == probe@.accepted[i] by {
            assert(all[i] == *suites@[i]);
        }
    }
}

/// A hello that could not be built ends the attempts, with the reason that was given.
pub proof fn hello_failures_end_the_attempts(why: String, e: RetryError)
    requires
        call_ensures(probe::hello_failure, (HelloError::RandomUnavailable(why),), e),
    ensures
        e matches RetryError::Definitive(text) && text@ == why@,
{
}

/// A suite is asked for three times.
pub proof fn suites_are_asked_for_three_times()
    ensures
        probe::MAX_ATTEMPTS == 3,
        crate::cert::certificate::CONNECT_ATTEMPTS == 3,
{
}

} // verus!
