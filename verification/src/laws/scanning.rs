//! Promises about a scan and how its outcome is shown.

use vstd::prelude::*;

use crate::cert::certificate::Certificate;
use crate::laws::catalog as listing;
use crate::laws::certificate as shown;
use crate::laws::probing;
use crate::probe::Probe;
use crate::scan;
use crate::scan::{TlsScan, TlsScanResults};
use crate::text;
use crate::tls::cipher_suite;
use crate::tls::cipher_suite::Catalog;
use crate::tls::{CipherSuite, TlsVersion};

verus! {

// ---------------------------------------------------------------------------
// What is asked
// ---------------------------------------------------------------------------

/// If an address was found for what was given, then the server's name is what stands before the
/// last colon, or all of it if there is none, and no port is added. Else the name is all that was
/// given, and port 443 is added.
pub proof fn names_stand_before_ports<'a>(
    host: &'a str,
    found: bool,
    scan: TlsScan<'a>,
    sni: &'a str,
    port: Option<u16>,
    at: int,
)
    requires
        call_ensures(TlsScan::new, (host, found), scan),
        call_ensures(TlsScan::sni, (&scan,), sni),
        call_ensures(TlsScan::port, (&scan,), port),
    ensures
        !found ==> sni@ == host@ && port == Some(443u16),
        found ==> port is None,
        found && !host@.contains(':') ==> sni@ == host@,
        found && 0 <= at < host@.len() && host@[at] == ':' && !host@.skip(at + 1).contains(':')
            ==> sni@ == host@.take(at),
{
    if found && !host@.contains(':') {
        scan::ports_are_cut_off(host@, seq![]);
    }
    if found && 0 <= at < host@.len() && host@[at] == ':' && !host@.skip(at + 1).contains(':') {
        scan::ports_are_cut_off(host@.take(at), host@.skip(at + 1));
        assert(host@ =~= host@.take(at).push(':') + host@.skip(at + 1));
    }
}

/// A scan makes four probes, from TLS 1.3 down to TLS 1.0, of the server's name, and each begins
/// with all that may be offered under its version.
pub proof fn four_versions_are_probed<'a>(
    host: &'a str,
    found: bool,
    scan: TlsScan<'a>,
    sni: &'a str,
    catalog: &'a Catalog,
    suites: &Vec<CipherSuite>,
    probes: Vec<Probe<'a>>,
)
    requires
        call_ensures(TlsScan::new, (host, found), scan),
        call_ensures(TlsScan::sni, (&scan,), sni),
        call_ensures(Catalog::suites, (catalog,), suites),
        call_ensures(TlsScan::probes, (&scan, catalog), probes),
    ensures
        probes@.len() == 4,
        probes@[0]@.version == TlsVersion::Tls13,
        probes@[1]@.version == TlsVersion::Tls12,
        probes@[2]@.version == TlsVersion::Tls11,
        probes@[3]@.version == TlsVersion::Tls10,
        forall|i: int|
            0 <= i < 4 ==> {
                &&& (#[trigger] probes@[i])@.sni == sni@
                &&& probes@[i]@.suites == suites@
                &&& probes@[i]@.accepted.len() == 0
                &&& !probes@[i]@.refused
                &&& forall|c: u16| #[trigger]
                    probes@[i]@.remaining.contains(c) <==> listing::is_listed(
                        suites@,
                        probes@[i]@.version,
                        c,
                    ) && !listing::is_held_back(c)
                &&& forall|k: int, l: int|
                    0 <= k < l < probes@[i]@.remaining.len() ==> probes@[i]@.remaining[k]
                        < probes@[i]@.remaining[l]
            },
{
    let all = probes@.map_values(|p: Probe<'a>| p@);
    let fresh = scan::fresh_probes(sni@, catalog@);
    assert(all == fresh);
    assert(scan::probe_versions().len() == 4);
    assert(fresh.len() == 4);
    assert forall|i: int| 0 <= i < 4 implies (#[trigger] probes@[i])@ == scan::fresh_probe(
        sni@,
        scan::probe_versions()[i],
        catalog@,
    ) by {
        assert(all[i] == probes@[i]@);
        assert(fresh[i] == scan::fresh_probe(sni@, scan::probe_versions()[i], catalog@));
    }
    assert forall|i: int| 0 <= i < 4 implies {
        &&& (#[trigger] probes@[i])@.sni == sni@
        &&& probes@[i]@.suites == suites@
        &&& probes@[i]@.accepted.len() == 0
        &&& !probes@[i]@.refused
        &&& forall|c: u16| #[trigger]
            probes@[i]@.remaining.contains(c) <==> listing::is_listed(
                suites@,
                probes@[i]@.version,
                c,
            ) && !listing::is_held_back(c)
        &&& forall|k: int, l: int|
            0 <= k < l < probes@[i]@.remaining.len() ==> probes@[i]@.remaining[k]
                < probes@[i]@.remaining[l]
    } by {
        let v = scan::probe_versions()[i];
        let p = probes@[i]@;
        probing::first_offer(catalog@, v);
        listing::suites_are_offered_under_each_version_they_list(catalog@, v);
        assert forall|c: u16| #[trigger] p.remaining.contains(c) <==> listing::is_listed(
            suites@,
            p.version,
            c,
        ) && !listing::is_held_back(c) by {
            assert(probing::is_open(catalog@, v, seq![], c) <==> listing::is_listed(catalog@, v, c)
                && !listing::is_held_back(c));
        }
    }
}

// ---------------------------------------------------------------------------
// What comes out
// ---------------------------------------------------------------------------

/// Whether `r` is what a probe has found out: its version with the suites that the server has
/// picked, in order, and with none exactly if the server has picked none.
pub open spec fn is_result_of(
    r: (TlsVersion, Option<Vec<&CipherSuite>>),
    version: TlsVersion,
    picked: Seq<CipherSuite>,
) -> bool {
    &&& r.0 == version
    &&& match r.1 {
        Some(suites) => {
            &&& picked.len() > 0
            &&& suites@.len() == picked.len()
            &&& forall|j: int| 0 <= j < picked.len() ==> *(#[trigger] suites@[j]) == picked[j]
        },
        None => picked.len() == 0,
    }
}

/// The outcome of a scan is that of its probes, in order. A version counts as spoken exactly if the
/// server has picked a suite under it, and all that it has picked are there. Without a certificate
/// there is no outcome.
pub proof fn every_probe_has_its_result<'a>(
    scan: TlsScan<'a>,
    probes: Vec<Probe<'a>>,
    certificate: Result<Certificate, String>,
    r: Result<TlsScanResults<'a>, String>,
)
    requires
        call_ensures(TlsScan::run, (&scan, probes, certificate), r),
    ensures
        certificate matches Err(why) ==> (r matches Err(text) && text@ == why@),
        certificate matches Ok(cert) ==> {
            &&& r matches Ok(outcome)
            &&& outcome.certificate == cert
            &&& outcome.results@.len() == probes@.len()
            &&& forall|i: int|
                0 <= i < probes@.len() ==> is_result_of(
                    outcome.results@[i],
                    (#[trigger] probes@[i])@.version,
                    probes@[i]@.accepted,
                )
        },
{
    if let Ok(cert) = certificate {
        let outcome = r->Ok_0;
        let all = probes@.map_values(|p: Probe<'a>| scan::outcome_of(p@));
        assert(outcome@.results == all);
        assert(outcome@.results.len() == outcome.results@.len());
        assert forall|i: int| 0 <= i < probes@.len() implies is_result_of(
            outcome.results@[i],
            (#[trigger] probes@[i])@.version,
            probes@[i]@.accepted,
        ) by {
            assert(all[i] == scan::outcome_of(probes@[i]@));
            assert(outcome@.results[i] == scan::version_result(outcome.results@[i]));
            if let Some(suites) = outcome.results@[i].1 {
                let viewed = suites@.map_values(|s: &CipherSuite| *s);
                assert(viewed == probes@[i]@.accepted);
                assert forall|j: int| 0 <= j < viewed.len() implies *(#[trigger] suites@[j])
                    == probes@[i]@.accepted[j] by {
                    assert(viewed[j] == *suites@[j]);
                }
            }
        }
    }
}

/// What the server has picked from a probe, and nothing else, stands in the outcome of the scan
/// under the version of the probe, whether or not the server has then refused an offer.
pub proof fn picks_come_out<'a>(
    sni: &'a str,
    v: TlsVersion,
    catalog: &'a Catalog,
    suites: &Vec<CipherSuite>,
    picks: Seq<&'a CipherSuite>,
    states: Seq<Probe<'a>>,
    ended: Probe<'a>,
    scan: TlsScan<'a>,
    probes: Vec<Probe<'a>>,
    certificate: Certificate,
    r: Result<TlsScanResults<'a>, String>,
    i: int,
)
    requires
        probing::goes_through(sni, v, catalog, picks, states),
        call_ensures(Catalog::suites, (catalog,), suites),
        call_ensures(Probe::answered, (states.last(), None), ended),
        0 <= i < probes@.len(),
        probes@[i] == states.last() || probes@[i] == ended,
        call_ensures(
            TlsScan::run,
            (&scan, probes, Ok::<Certificate, String>(certificate)),
            r,
        ),
    ensures
        r matches Ok(outcome) && i < outcome.results@.len() && outcome.results@[i].0 == v
            && probing::is_found(outcome.results@[i].1, picks),
{
    probing::state_of(sni, v, catalog, picks, states);
    every_probe_has_its_result(scan, probes, Ok(certificate), r);
    let outcome = r->Ok_0;
    let all = picks.map_values(|s: &CipherSuite| *s);
    assert(probes@[i]@.accepted == all);
    assert(is_result_of(outcome.results@[i], probes@[i]@.version, probes@[i]@.accepted));
    if let Some(found) = outcome.results@[i].1 {
        assert forall|j: int| 0 <= j < picks.len() implies *(#[trigger] found@[j])
            == *picks[j] by {
            assert(all[j] == *picks[j]);
        }
    }
}

// ---------------------------------------------------------------------------
// How it is shown
// ---------------------------------------------------------------------------

/// The name of a version.
pub open spec fn version_name(v: TlsVersion) -> Seq<char> {
    match v {
        TlsVersion::Ssl20 => "SSL 2.0"@,
        TlsVersion::Ssl30 => "SSL 3.0"@,
        TlsVersion::Tls10 => "TLS 1.0"@,
        TlsVersion::Tls11 => "TLS 1.1"@,
        TlsVersion::Tls12 => "TLS 1.2"@,
        TlsVersion::Tls13 => "TLS 1.3"@,
    }
}

proof fn regrouped(
    a: Seq<char>,
    b: Seq<char>,
    name: Seq<char>,
    colon: Seq<char>,
    truth: Seq<char>,
    end: Seq<char>,
)
    ensures
        a + b + name + colon + truth + end == a + (b + name + colon + truth + end),
{
    assert(a + b + name + colon + truth + end =~= a + (b + name + colon + truth + end));
}

proof fn one_protocol_line(v: TlsVersion, suites: Option<Seq<CipherSuite>>)
    ensures
        scan::protocol_lines(seq![(v, suites)]) == version_name(v) + ": "@ + (if suites is Some {
            "true"@
        } else {
            "false"@
        }) + "\n"@,
{
    let one = seq![(v, suites)];
    let none: Seq<char> = seq![];
    assert(one.drop_last() =~= seq![]);
    assert(one.last() == (v, suites));
    assert(scan::protocol_lines(one.drop_last()) =~= none);
    assert(none + version_name(v) =~= version_name(v));
}

/// The lines on protocols of two outcomes follow each other; each outcome of one version has one
/// line, with the version's name and whether the server speaks it.
pub proof fn protocol_lines_follow_each_other(
    a: Seq<(TlsVersion, Option<Seq<CipherSuite>>)>,
    b: Seq<(TlsVersion, Option<Seq<CipherSuite>>)>,
    v: TlsVersion,
    suites: Option<Seq<CipherSuite>>,
)
    ensures
        scan::protocol_lines(a + b) == scan::protocol_lines(a) + scan::protocol_lines(b),
        scan::protocol_lines(seq![(v, suites)]) == version_name(v) + ": "@ + (if suites is Some {
            "true"@
        } else {
            "false"@
        }) + "\n"@,
        scan::protocol_lines(seq![]) == Seq::<char>::empty(),
    decreases b.len(),
{
    one_protocol_line(v, suites);
    if b.len() == 0 {
        assert(a + b =~= a);
        assert(scan::protocol_lines(a) + scan::protocol_lines(b) =~= scan::protocol_lines(a));
    } else {
        protocol_lines_follow_each_other(a, b.drop_last(), v, suites);
        assert((a + b).drop_last() =~= a + b.drop_last());
        assert((a + b).last() == b.last());
        regrouped(
            scan::protocol_lines(a),
            scan::protocol_lines(b.drop_last()),
            b.last().0.display_name(),
            ": "@,
            text::bool_text(b.last().1 is Some),
            "\n"@,
        );
    }
}

/// The lines on suites follow each other; each suite has one, with all that is shown of the suite,
/// indented.
pub proof fn suite_lines_follow_each_other(
    a: Seq<CipherSuite>,
    b: Seq<CipherSuite>,
    suite: CipherSuite,
    colors: bool,
)
    ensures
        scan::suite_lines(a + b, colors) == scan::suite_lines(a, colors) + scan::suite_lines(
            b,
            colors,
        ),
        scan::suite_lines(seq![suite], colors) == text::indented(
            "   "@,
            true,
            suite.shown(colors) + "\n"@,
        ),
        listing::shows_suite(suite.shown(colors), suite, colors),
        scan::suite_lines(seq![], colors) == Seq::<char>::empty(),
    decreases b.len(),
{
    let one = seq![suite];
    assert(one.drop_last() =~= seq![]);
    assert(one.last() == suite);
    assert(scan::suite_lines(one.drop_last(), colors) =~= seq![]);
    assert(scan::suite_lines(one, colors) =~= text::indented(
        "   "@,
        true,
        suite.shown(colors) + "\n"@,
    ));
    listing::shown_suites_show_the_suite(suite, colors);
    if b.len() == 0 {
        assert(a + b =~= a);
        assert(scan::suite_lines(a + b, colors) =~= scan::suite_lines(a, colors)
            + scan::suite_lines(b, colors));
    } else {
        suite_lines_follow_each_other(a, b.drop_last(), suite, colors);
        assert((a + b).drop_last() =~= a + b.drop_last());
        assert((a + b).last() == b.last());
        assert(scan::suite_lines(a + b, colors) =~= scan::suite_lines(a, colors)
            + scan::suite_lines(b, colors));
    }
}

/// The suites of two outcomes follow each other, whatever versions are not spoken; a version that
/// is spoken has its name on a line behind a hash sign, and then its suites; one that is not has
/// nothing.
pub proof fn suite_blocks_follow_each_other(
    a: Seq<(TlsVersion, Option<Seq<CipherSuite>>)>,
    b: Seq<(TlsVersion, Option<Seq<CipherSuite>>)>,
    v: TlsVersion,
    suites: Seq<CipherSuite>,
    colors: bool,
)
    ensures
        scan::suite_blocks(a + b, colors) == scan::suite_blocks(a, colors) + scan::suite_blocks(
            b,
            colors,
        ),
        scan::suite_blocks(seq![(v, Some(suites))], colors) == "# "@ + version_name(v) + "\n"@
            + scan::suite_lines(suites, colors),
        scan::suite_blocks(seq![(v, None)], colors) == Seq::<char>::empty(),
        scan::suite_blocks(seq![], colors) == Seq::<char>::empty(),
    decreases b.len(),
{
    let one = seq![(v, Some(suites))];
    assert(one.drop_last() =~= seq![]);
    assert(one.last() == (v, Some(suites)));
    assert(scan::suite_blocks(one.drop_last(), colors) =~= seq![]);
    assert(scan::suite_blocks(one, colors) =~= "# "@ + version_name(v) + "\n"@ + scan::suite_lines(
        suites,
        colors,
    ));
    let none = seq![(v, None::<Seq<CipherSuite>>)];
    assert(none.drop_last() =~= seq![]);
    assert(none.last() == (v, None::<Seq<CipherSuite>>));
    if b.len() == 0 {
        assert(a + b =~= a);
        assert(scan::suite_blocks(a + b, colors) =~= scan::suite_blocks(a, colors)
            + scan::suite_blocks(b, colors));
    } else {
        suite_blocks_follow_each_other(a, b.drop_last(), v, suites, colors);
        assert((a + b).drop_last() =~= a + b.drop_last());
        assert((a + b).last() == b.last());
        regrouped(
            scan::suite_blocks(a, colors),
            scan::suite_blocks(b.drop_last(), colors),
            "# "@,
            b.last().0.display_name(),
            "\n"@,
            scan::suite_lines(b.last().1->0, colors),
        );
    }
}

/// The line on a version.
pub open spec fn protocol_line(r: (TlsVersion, Option<Vec<&CipherSuite>>)) -> Seq<char> {
    version_name(r.0) + ": "@ + (if r.1 is Some {
        "true"@
    } else {
        "false"@
    }) + "\n"@
}

/// The line on a suite.
pub open spec fn suite_line(suite: &CipherSuite, colors: bool) -> Seq<char> {
    text::indented("   "@, true, suite.shown(colors) + "\n"@)
}

/// The lines on the suites of a version: none if the server does not speak it.
pub open spec fn suite_block(r: (TlsVersion, Option<Vec<&CipherSuite>>), colors: bool) -> Seq<
    char,
> {
    match r.1 {
        Some(suites) => "# "@ + version_name(r.0) + "\n"@ + concat(
            suites@.map_values(|s: &CipherSuite| suite_line(s, colors)),
        ),
        None => seq![],
    }
}

/// Texts, one after the other.
pub open spec fn concat(texts: Seq<Seq<char>>) -> Seq<char>
    decreases texts.len(),
{
    if texts.len() == 0 {
        seq![]
    } else {
        texts[0] + concat(texts.skip(1))
    }
}

proof fn concat_grows(texts: Seq<Seq<char>>, last: Seq<char>)
    ensures
        concat(texts.push(last)) == concat(texts) + last,
    decreases texts.len(),
{
    let more = texts.push(last);
    if texts.len() == 0 {
        assert(more.skip(1) =~= seq![]);
        assert(concat(more.skip(1)) =~= seq![]);
        assert(concat(more) =~= concat(texts) + last);
    } else {
        concat_grows(texts.skip(1), last);
        assert(more.skip(1) =~= texts.skip(1).push(last));
        assert(more[0] == texts[0]);
        assert(concat(more) =~= concat(texts) + last);
    }
}

proof fn suite_lines_are(suites: Seq<&CipherSuite>, colors: bool)
    ensures
        scan::suite_lines(suites.map_values(|s: &CipherSuite| *s), colors) == concat(
            suites.map_values(|s: &CipherSuite| suite_line(s, colors)),
        ),
    decreases suites.len(),
{
    let all = suites.map_values(|s: &CipherSuite| *s);
    let lines = suites.map_values(|s: &CipherSuite| suite_line(s, colors));
    if suites.len() > 0 {
        let before = suites.drop_last();
        suite_lines_are(before, colors);
        assert(all.drop_last() =~= before.map_values(|s: &CipherSuite| *s));
        assert(lines =~= before.map_values(|s: &CipherSuite| suite_line(s, colors)).push(
            suite_line(suites.last(), colors),
        ));
        concat_grows(
            before.map_values(|s: &CipherSuite| suite_line(s, colors)),
            suite_line(suites.last(), colors),
        );
    }
}

proof fn last_result(results: Seq<(TlsVersion, Option<Vec<&CipherSuite>>)>)
    requires
        results.len() > 0,
    ensures
        results.map_values(
            |r: (TlsVersion, Option<Vec<&CipherSuite>>)| scan::version_result(r),
        ) == results.drop_last().map_values(
            |r: (TlsVersion, Option<Vec<&CipherSuite>>)| scan::version_result(r),
        ) + seq![scan::version_result(results.last())],
{
    assert(results.map_values(
        |r: (TlsVersion, Option<Vec<&CipherSuite>>)| scan::version_result(r),
    ) =~= results.drop_last().map_values(
        |r: (TlsVersion, Option<Vec<&CipherSuite>>)| scan::version_result(r),
    ) + seq![scan::version_result(results.last())]);
}

proof fn protocol_lines_are(results: Seq<(TlsVersion, Option<Vec<&CipherSuite>>)>)
    ensures
        scan::protocol_lines(
            results.map_values(
                |r: (TlsVersion, Option<Vec<&CipherSuite>>)| scan::version_result(r),
            ),
        ) == concat(
            results.map_values(|r: (TlsVersion, Option<Vec<&CipherSuite>>)| protocol_line(r)),
        ),
    decreases results.len(),
{
    let viewed = |r: (TlsVersion, Option<Vec<&CipherSuite>>)| scan::version_result(r);
    let line = |r: (TlsVersion, Option<Vec<&CipherSuite>>)| protocol_line(r);
    if results.len() > 0 {
        let before = results.drop_last();
        let last = results.last();
        let result = scan::version_result(last);
        protocol_lines_are(before);
        last_result(results);
        protocol_lines_follow_each_other(
            before.map_values(viewed),
            seq![result],
            result.0,
            result.1,
        );
        assert(results.map_values(line) =~= before.map_values(line).push(protocol_line(last)));
        concat_grows(before.map_values(line), protocol_line(last));
    } else {
        assert(results.map_values(viewed) =~= seq![]);
        assert(results.map_values(line) =~= seq![]);
    }
}

proof fn suite_blocks_are(results: Seq<(TlsVersion, Option<Vec<&CipherSuite>>)>, colors: bool)
    ensures
        scan::suite_blocks(
            results.map_values(
                |r: (TlsVersion, Option<Vec<&CipherSuite>>)| scan::version_result(r),
            ),
            colors,
        ) == concat(
            results.map_values(|r: (TlsVersion, Option<Vec<&CipherSuite>>)| suite_block(r, colors)),
        ),
    decreases results.len(),
{
    let viewed = |r: (TlsVersion, Option<Vec<&CipherSuite>>)| scan::version_result(r);
    let block = |r: (TlsVersion, Option<Vec<&CipherSuite>>)| suite_block(r, colors);
    if results.len() > 0 {
        let before = results.drop_last();
        let last = results.last();
        let result = scan::version_result(last);
        suite_blocks_are(before, colors);
        last_result(results);
        suite_blocks_follow_each_other(
            before.map_values(viewed),
            seq![result],
            result.0,
            result.1->0,
            colors,
        );
        if let Some(suites) = last.1 {
            suite_lines_are(suites@, colors);
        }
        assert(scan::suite_blocks(seq![result], colors) == suite_block(last, colors));
        assert(results.map_values(block) =~= before.map_values(block).push(
            suite_block(last, colors),
        ));
        concat_grows(before.map_values(block), suite_block(last, colors));
    } else {
        assert(results.map_values(viewed) =~= seq![]);
        assert(results.map_values(block) =~= seq![]);
    }
}

/// Whether `s` shows an outcome: the certificate, then for each version whether it is spoken, then
/// for each version that is spoken its suites, each part under its heading and indented.
pub open spec fn shows_outcome(
    s: Seq<char>,
    results: Seq<(TlsVersion, Option<Vec<&CipherSuite>>)>,
    certificate: Seq<char>,
    colors: bool,
) -> bool {
    s == "certificate:\n"@ + text::indented("   "@, true, certificate) + "\nprotocols:\n"@
        + text::indented(
        "   "@,
        true,
        concat(results.map_values(|r: (TlsVersion, Option<Vec<&CipherSuite>>)| protocol_line(r))),
    ) + "\ncipher suites:\n"@ + text::indented(
        "   "@,
        true,
        concat(
            results.map_values(|r: (TlsVersion, Option<Vec<&CipherSuite>>)| suite_block(r, colors)),
        ),
    )
}

proof fn layout_shows(outcome: TlsScanResults, certificate: Seq<char>, colors: bool)
    ensures
        shows_outcome(
            scan::layout_text(outcome@.results, certificate, colors),
            outcome.results@,
            certificate,
            colors,
        ),
{
    protocol_lines_are(outcome.results@);
    suite_blocks_are(outcome.results@, colors);
    assert(outcome@.results =~= outcome.results@.map_values(
        |r: (TlsVersion, Option<Vec<&CipherSuite>>)| scan::version_result(r),
    ));
}

/// The outcome is shown with all of its parts.
pub proof fn outcomes_are_laid_out<'a>(
    outcome: &TlsScanResults<'a>,
    certificate: &str,
    colors: bool,
    s: String,
)
    requires
        call_ensures(TlsScanResults::layout, (outcome, certificate, colors), s),
    ensures
        shows_outcome(s@, outcome.results@, certificate@, colors),
{
    layout_shows(*outcome, certificate@, colors);
}

/// Whether `s` shows all of an outcome, its certificate too.
pub open spec fn shows_all(s: Seq<char>, outcome: TlsScanResults, colors: bool) -> bool {
    exists|certificate: Seq<char>|
        {
            &&& #[trigger] shown::is_shown(certificate, outcome.certificate)
            &&& shows_outcome(s, outcome.results@, certificate, colors)
        }
}

proof fn all_is_shown(outcome: TlsScanResults, s: Seq<char>, colors: bool)
    requires
        scan::lays_out(outcome, s, colors),
    ensures
        shows_all(s, outcome, colors),
{
    let certificate = choose|certificate: String| #[trigger]
        call_ensures(Certificate::to_text, (&outcome.certificate,), certificate) && s
            == scan::layout_text(outcome@.results, certificate@, colors);
    shown::certificates_show_their_fields(&outcome.certificate, certificate);
    layout_shows(outcome, certificate@, colors);
    assert(shown::is_shown(certificate@, outcome.certificate));
}

/// The outcome is shown with its certificate, in colors where they are asked for, or where standard
/// output was found to take them.
pub proof fn outcomes_are_shown<'a>(
    outcome: &TlsScanResults<'a>,
    colors: bool,
    s: String,
    d: String,
)
    requires
        call_ensures(TlsScanResults::to_text, (outcome, colors), s),
        call_ensures(TlsScanResults::display, (outcome,), d),
    ensures
        shows_all(s@, *outcome, colors),
        exists|on: bool| #[trigger]
            cipher_suite::were_colors_taken(on) && shows_all(d@, *outcome, on),
{
    all_is_shown(*outcome, s@, colors);
    let on = choose|on: bool| #[trigger]
        cipher_suite::were_colors_taken(on) && scan::lays_out(*outcome, d@, on);
    all_is_shown(*outcome, d@, on);
}

} // verus!
