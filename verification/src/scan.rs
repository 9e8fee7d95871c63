//! A scan of one server: what is asked, and how the outcome is shown.

use vstd::prelude::*;

use crate::cert::certificate::{Certificate, CertificateModel};
use crate::cert::display;
use crate::probe::{Probe, ProbeModel};
use crate::text;
use crate::tls::cipher_suite;
use crate::tls::cipher_suite::Catalog;
use crate::tls::{CipherSuite, TlsVersion};

verus! {

/// The port that is asked where none is given.
pub const DEFAULT_PORT: u16 = 443;

/// The last place of a colon in `s`.
pub open spec fn last_colon(s: Seq<char>) -> Option<int>
    decreases s.len(),
{
    if s.len() == 0 {
        None
    } else if s.last() == ':' {
        Some(s.len() - 1)
    } else {
        last_colon(s.drop_last())
    }
}

/// The part of `host` before its last colon, or all of it if it has none.
pub open spec fn before_port(host: Seq<char>) -> Seq<char> {
    match last_colon(host) {
        Some(at) => host.take(at),
        None => host,
    }
}

fn without_port<'a>(host: &'a str) -> (name: &'a str)
    ensures
        name@ == before_port(host@),
{
    let chars = text::chars_of(host);
    let mut at: usize = chars.len();
    assert(host@.take(at as int) =~= host@);
    while at > 0
        invariant
            at <= chars@.len(),
            chars@ == host@,
            last_colon(host@) == last_colon(host@.take(at as int)),
        decreases at,
    {
        assert(host@.take(at as int).drop_last() =~= host@.take(at - 1));
        if chars[at - 1] == ':' {
            let name = host.substring_char(0, at - 1);
            assert(name@ =~= host@.take(at - 1));
            return name;
        }
        at = at - 1;
    }
    host
}

/// A scan of one server.
pub struct TlsScan<'a> {
    sni: &'a str,
    port: Option<u16>,
}

impl<'a> TlsScan<'a> {
    /// The server's name.
    pub closed spec fn server_name(self) -> Seq<char> {
        self.sni@
    }

    /// The port to look the server up with, unless the name that was given has one.
    pub closed spec fn port_to_add(self) -> Option<u16> {
        self.port
    }

    /// Prepares a scan of `host`. `found` says whether an address was found for `host` as it
    /// stands, which takes a port behind a colon.
    pub fn new(host: &'a str, found: bool) -> (scan: Self)
        ensures
            found ==> scan.server_name() == before_port(host@) && scan.port_to_add() is None,
            !found ==> scan.server_name() == host@ && scan.port_to_add() == Some(DEFAULT_PORT),
    {
        if found {
            TlsScan { sni: without_port(host), port: None }
        } else {
            TlsScan { sni: host, port: Some(DEFAULT_PORT) }
        }
    }

    /// Returns the server's name.
    pub fn sni(&self) -> (sni: &'a str)
        ensures
            sni@ == self.server_name(),
    {
        self.sni
    }

    /// Returns the port to look the server up with, unless the name that was given has one.
    pub fn port(&self) -> (port: Option<u16>)
        ensures
            port == self.port_to_add(),
    {
        self.port
    }

    /// Returns the probes to make, newest version first.
    pub fn probes(&self, catalog: &'a Catalog) -> (probes: Vec<Probe<'a>>)
        ensures
            probes@.map_values(|p: Probe<'a>| p@) == fresh_probes(self.server_name(), catalog@),
    {
        let versions = TlsVersion::probe_order();
        let mut probes: Vec<Probe<'a>> = Vec::new();
        let mut i: usize = 0;
        while i < versions.len()
            invariant
                i <= versions@.len() == 4,
                versions@ == probe_versions(),
                probes@.len() == i,
                forall|j: int|
                    0 <= j < i ==> (#[trigger] probes@[j])@ == fresh_probe(
                        self.server_name(),
                        probe_versions()[j],
                        catalog@,
                    ),
            decreases 4 - i,
        {
            probes.push(Probe::new(self.sni, versions[i], catalog));
            i = i + 1;
        }
        assert(probes@.map_values(|p: Probe<'a>| p@) =~= fresh_probes(
            self.server_name(),
            catalog@,
        ));
        probes
    }

    /// Gathers the outcome of a scan from probes that have come to their end and the certificate.
    pub fn run(
        &self,
        probes: Vec<Probe<'a>>,
        certificate: Result<Certificate, String>,
    ) -> (r: Result<TlsScanResults<'a>, String>)
        ensures
            match certificate {
                Ok(cert) => r matches Ok(outcome) && outcome.certificate == cert && outcome@ == (
                ResultsModel {
                    results: probes@.map_values(|p: Probe<'a>| outcome_of(p@)),
                    certificate: cert@,
                }),
                Err(why) => r == Err::<TlsScanResults<'a>, String>(why),
            },
    {
        let certificate = match certificate {
            Ok(cert) => cert,
            Err(why) => {
                return Err(why);
            },
        };
        let ghost all = probes@;
        let mut left = probes;
        let mut results: Vec<(TlsVersion, Option<Vec<&'a CipherSuite>>)> = Vec::new();
        while left.len() > 0
            invariant
                all == probes@,
                left@.len() <= all.len(),
                left@ == all.take(left@.len() as int),
                results@.len() == all.len() - left@.len(),
                forall|j: int|
                    0 <= j < results@.len() ==> version_result(#[trigger] results@[j]) == outcome_of(
                        all[left@.len() + j]@,
                    ),
            decreases left@.len(),
        {
            let ghost before = results@;
            let ghost at = left@.len() - 1;
            if let Some(probe) = left.pop() {
                assert(left@ =~= all.take(at));
                assert(probe == all[at]);
                let version = probe.version();
                let result = (version, probe.accepted_ciphers());
                assert(version_result(result) == outcome_of(all[at]@));
                results.insert(0, result);
                assert forall|j: int| 0 <= j < results@.len() implies version_result(
                    #[trigger] results@[j],
                ) == outcome_of(all[left@.len() + j]@) by {
                    if j > 0 {
                        assert(results@[j] == before[j - 1]);
                        assert(version_result(before[j - 1]) == outcome_of(all[at + 1 + (j - 1)]@));
                    } else {
                        assert(results@[0] == result);
                    }
                }
            }
        }
        let outcome = TlsScanResults { results, certificate };
        assert(outcome@.results =~= probes@.map_values(|p: Probe<'a>| outcome_of(p@)));
        Ok(outcome)
    }
}

/// The versions that are probed, in order.
pub open spec fn probe_versions() -> Seq<TlsVersion> {
    seq![TlsVersion::Tls13, TlsVersion::Tls12, TlsVersion::Tls11, TlsVersion::Tls10]
}

/// A probe that has not begun.
pub open spec fn fresh_probe(
    sni: Seq<char>,
    version: TlsVersion,
    suites: Seq<CipherSuite>,
) -> ProbeModel {
    ProbeModel {
        sni,
        version,
        suites,
        remaining: cipher_suite::offerable_codes(suites, version),
        accepted: seq![],
        refused: false,
    }
}

/// The probes of a scan, before they begin.
pub open spec fn fresh_probes(sni: Seq<char>, suites: Seq<CipherSuite>) -> Seq<ProbeModel> {
    probe_versions().map_values(|v: TlsVersion| fresh_probe(sni, v, suites))
}

/// What a probe has found out.
pub open spec fn outcome_of(probe: ProbeModel) -> (TlsVersion, Option<Seq<CipherSuite>>) {
    (
        probe.version,
        if probe.accepted.len() == 0 {
            None
        } else {
            Some(probe.accepted)
        },
    )
}

/// The outcome of a scan: what each version takes, and the certificate.
#[verifier::ext_equal]
pub struct ResultsModel {
    pub results: Seq<(TlsVersion, Option<Seq<CipherSuite>>)>,
    pub certificate: CertificateModel,
}

/// The outcome of a scan.
pub struct TlsScanResults<'a> {
    /// The versions that were probed, each with the suites that the server takes under it, if the
    /// server speaks it.
    pub results: Vec<(TlsVersion, Option<Vec<&'a CipherSuite>>)>,
    /// The server's certificate.
    pub certificate: Certificate,
}

/// A version and the suites that the server takes under it.
pub open spec fn version_result(r: (TlsVersion, Option<Vec<&CipherSuite>>)) -> (
    TlsVersion,
    Option<Seq<CipherSuite>>,
) {
    (
        r.0,
        match r.1 {
            Some(suites) => Some(suites@.map_values(|s: &CipherSuite| *s)),
            None => None,
        },
    )
}

impl<'a> View for TlsScanResults<'a> {
    type V = ResultsModel;

    open spec fn view(&self) -> ResultsModel {
        ResultsModel {
            results: self.results@.map_values(
                |r: (TlsVersion, Option<Vec<&'a CipherSuite>>)| version_result(r),
            ),
            certificate: self.certificate@,
        }
    }
}

// ---------------------------------------------------------------------------
// Showing the outcome
// ---------------------------------------------------------------------------

/// One line for each version, saying whether the server speaks it.
pub open spec fn protocol_lines(results: Seq<(TlsVersion, Option<Seq<CipherSuite>>)>) -> Seq<char>
    decreases results.len(),
{
    if results.len() == 0 {
        seq![]
    } else {
        let (version, suites) = results.last();
        protocol_lines(results.drop_last()) + version.display_name() + ": "@ + text::bool_text(
            suites is Some,
        ) + "\n"@
    }
}

/// One indented line for each suite.
pub open spec fn suite_lines(suites: Seq<CipherSuite>, colors: bool) -> Seq<char>
    decreases suites.len(),
{
    if suites.len() == 0 {
        seq![]
    } else {
        suite_lines(suites.drop_last(), colors) + text::indented(
            "   "@,
            true,
            suites.last().shown(colors) + "\n"@,
        )
    }
}

/// The suites of each version that the server speaks, under the version's name.
pub open spec fn suite_blocks(
    results: Seq<(TlsVersion, Option<Seq<CipherSuite>>)>,
    colors: bool,
) -> Seq<char>
    decreases results.len(),
{
    if results.len() == 0 {
        seq![]
    } else {
        let before = suite_blocks(results.drop_last(), colors);
        match results.last() {
            (version, Some(suites)) => before + "# "@ + version.display_name() + "\n"@ + suite_lines(
                suites,
                colors,
            ),
            (_, None) => before,
        }
    }
}

/// The outcome of a scan, given how the certificate is shown.
pub open spec fn layout_text(
    results: Seq<(TlsVersion, Option<Seq<CipherSuite>>)>,
    certificate: Seq<char>,
    colors: bool,
) -> Seq<char> {
    "certificate:\n"@ + text::indented("   "@, true, certificate) + "\nprotocols:\n"@
        + text::indented("   "@, true, protocol_lines(results)) + "\ncipher suites:\n"@
        + text::indented("   "@, true, suite_blocks(results, colors))
}

/// Whether `s` shows the outcome, with a text that `Certificate::to_text` gave for the certificate.
pub open spec fn lays_out(outcome: TlsScanResults, s: Seq<char>, colors: bool) -> bool {
    exists|text: String| #[trigger]
        call_ensures(Certificate::to_text, (&outcome.certificate,), text) && s == layout_text(
            outcome@.results,
            text@,
            colors,
        )
}

/// Calls `f` with `from`.
fn text_by<A, F: Fn(&A) -> String>(f: F, from: &A) -> (r: String)
    requires
        call_requires(f, (from,)),
    ensures
        call_ensures(f, (from,), r),
{
    f(from)
}

fn put_indented(out: &mut String, body: &str)
    ensures
        final(out)@ == old(out)@ + text::indented("   "@, true, body@),
{
    let mut writer = text::indent("   ");
    writer.write_str(body);
    out.append(writer.out.as_str());
    assert(writer.out@ =~= text::indented("   "@, true, body@));
}

fn put_suites(out: &mut String, suites: &Vec<&CipherSuite>, colors: bool)
    ensures
        final(out)@ == old(out)@ + suite_lines(
            suites@.map_values(|s: &CipherSuite| *s),
            colors,
        ),
{
    let ghost all = suites@.map_values(|s: &CipherSuite| *s);
    let mut i: usize = 0;
    assert(all.take(0) =~= seq![]);
    assert(out@ =~= old(out)@ + suite_lines(all.take(0), colors));
    while i < suites.len()
        invariant
            i <= suites@.len(),
            all == suites@.map_values(|s: &CipherSuite| *s),
            out@ == old(out)@ + suite_lines(all.take(i as int), colors),
        decreases suites@.len() - i,
    {
        let mut line = suites[i].styled(colors);
        line.append("\n");
        put_indented(out, line.as_str());
        assert(all.take(i + 1).drop_last() =~= all.take(i as int));
        assert(out@ =~= old(out)@ + suite_lines(all.take(i + 1), colors));
        i = i + 1;
    }
    assert(all.take(i as int) =~= all);
}

impl<'a> TlsScanResults<'a> {
    fn protocols(&self) -> (s: String)
        ensures
            s@ == protocol_lines(self@.results),
    {
        let ghost all = self@.results;
        let mut s = String::new();
        let mut i: usize = 0;
        assert(all.take(0) =~= seq![]);
        while i < self.results.len()
            invariant
                i <= self.results@.len(),
                all == self@.results,
                s@ == protocol_lines(all.take(i as int)),
            decreases self.results@.len() - i,
        {
            let ghost before = s@;
            s.append(self.results[i].0.name());
            s.append(": ");
            s.append(text::bool_name(self.results[i].1.is_some()));
            s.append("\n");
            assert(all.take(i + 1).drop_last() =~= all.take(i as int));
            assert(all.take(i + 1).last() == version_result(self.results@[i as int]));
            i = i + 1;
        }
        assert(all.take(i as int) =~= all);
        s
    }

    fn suites(&self, colors: bool) -> (s: String)
        ensures
            s@ == suite_blocks(self@.results, colors),
    {
        let ghost all = self@.results;
        let mut s = String::new();
        let mut i: usize = 0;
        assert(all.take(0) =~= seq![]);
        while i < self.results.len()
            invariant
                i <= self.results@.len(),
                all == self@.results,
                s@ == suite_blocks(all.take(i as int), colors),
            decreases self.results@.len() - i,
        {
            assert(all.take(i + 1).drop_last() =~= all.take(i as int));
            assert(all.take(i + 1).last() == version_result(self.results@[i as int]));
            if let Some(suites) = &self.results[i].1 {
                s.append("# ");
                s.append(self.results[i].0.name());
                s.append("\n");
                put_suites(&mut s, suites, colors);
            }
            i = i + 1;
        }
        assert(all.take(i as int) =~= all);
        s
    }

    /// Shows the outcome, given how the certificate is shown.
    pub fn layout(&self, certificate: &str, colors: bool) -> (s: String)
        ensures
            s@ == layout_text(self@.results, certificate@, colors),
    {
        let mut s = String::from_str("certificate:\n");
        put_indented(&mut s, certificate);
        s.append("\nprotocols:\n");
        put_indented(&mut s, self.protocols().as_str());
        s.append("\ncipher suites:\n");
        put_indented(&mut s, self.suites(colors).as_str());
        s
    }

    /// Shows the outcome, in colors if `colors` is set.
    pub fn to_text(&self, colors: bool) -> (s: String)
        ensures
            s@ == layout_text(
                self@.results,
                display::certificate_text(self@.certificate),
                colors,
            ),
            lays_out(*self, s@, colors),
    {
        let certificate = text_by(Certificate::to_text, &self.certificate);
        self.layout(certificate.as_str(), colors)
    }

    /// Shows the outcome, in colors if standard output takes colors.
    pub fn display(&self) -> (s: String)
        ensures
            exists|colors: bool|
                s@ == #[trigger] layout_text(
                    self@.results,
                    display::certificate_text(self@.certificate),
                    colors,
                ),
            exists|colors: bool| #[trigger]
                cipher_suite::were_colors_taken(colors) && lays_out(*self, s@, colors),
    {
        let colors = cipher_suite::asked(cipher_suite::stdout_takes_colors);
        proof {
            cipher_suite::colors_are_those_found(colors);
        }
        self.to_text(colors)
    }
}

proof fn no_colon_no_port(s: Seq<char>)
    requires
        !s.contains(':'),
    ensures
        last_colon(s) is None,
    decreases s.len(),
{
    if s.len() > 0 {
        assert(s[s.len() - 1] != ':');
        assert forall|i: int| 0 <= i < s.drop_last().len() implies s.drop_last()[i] != ':' by {
            assert(s[i] != ':');
        }
        no_colon_no_port(s.drop_last());
    }
}

proof fn colon_before_port(name: Seq<char>, port: Seq<char>)
    requires
        !port.contains(':'),
    ensures
        last_colon(name.push(':') + port) == Some(name.len() as int),
    decreases port.len(),
{
    let s = name.push(':') + port;
    if port.len() == 0 {
        assert(s.last() == ':');
    } else {
        assert(port[port.len() - 1] != ':');
        assert(s.last() == port.last());
        assert forall|i: int| 0 <= i < port.drop_last().len() implies port.drop_last()[i]
            != ':' by {
            assert(port[i] != ':');
        }
        colon_before_port(name, port.drop_last());
        assert(s.drop_last() =~= name.push(':') + port.drop_last());
    }
}

/// The server's name is what stands before the port, and all that is given if no port is.
pub proof fn ports_are_cut_off(name: Seq<char>, port: Seq<char>)
    requires
        !port.contains(':'),
    ensures
        before_port(name.push(':') + port) == name,
        !name.contains(':') ==> before_port(name) == name,
{
    colon_before_port(name, port);
    assert((name.push(':') + port).take(name.len() as int) =~= name);
    if !name.contains(':') {
        no_colon_no_port(name);
    }
}

/// A scan probes exactly the versions from TLS 1.0 on, each once, newest first.
pub proof fn every_version_from_tls10_is_probed(v: TlsVersion)
    ensures
        probe_versions().contains(v) <==> v.wire_number() >= TlsVersion::Tls10.wire_number(),
        forall|i: int, j: int|
            0 <= i < j < probe_versions().len() ==> #[trigger] probe_versions()[i].wire_number()
                > #[trigger] probe_versions()[j].wire_number(),
{
    let all = probe_versions();
    assert(all[0] == TlsVersion::Tls13 && all[1] == TlsVersion::Tls12 && all[2]
        == TlsVersion::Tls11 && all[3] == TlsVersion::Tls10);
}

} // verus!
