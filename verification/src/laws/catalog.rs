//! Promises about cipher suites and the catalog.

use vstd::prelude::*;

use crate::laws::text as read;
use crate::text;
use crate::tls::cipher_suite;
use crate::tls::cipher_suite::{Catalog, Color};
use crate::tls::{CipherSuite, Security, TlsVersion};

verus! {

/// Whether a suite lists a version.
pub open spec fn lists(suite: CipherSuite, v: TlsVersion) -> bool {
    exists|j: int| 0 <= j < suite.tls_versions@.len() && #[trigger] suite.tls_versions@[j] == v
}

/// Whether some suite has this code and lists the version.
pub open spec fn is_listed(suites: Seq<CipherSuite>, v: TlsVersion, code: u16) -> bool {
    exists|i: int|
        0 <= i < suites.len() && (#[trigger] suites[i]).code == code && lists(suites[i], v)
}

/// Whether a code is one that is never offered.
pub open spec fn is_held_back(code: u16) -> bool {
    code == 0x0000 || code == 0x00ff || code == 0x5600
}

proof fn support_is_listing(suite: CipherSuite, v: TlsVersion)
    ensures
        suite.supports(v) <==> lists(suite, v),
{
    if suite.supports(v) {
        let j = choose|j: int| 0 <= j < suite.tls_versions@.len() && suite.tls_versions@[j] == v;
        assert(suite.tls_versions@[j] == v);
    }
}

proof fn held_back_codes(code: u16)
    ensures
        cipher_suite::NEVER_OFFER@.contains(code) <==> is_held_back(code),
{
    let all = cipher_suite::NEVER_OFFER@;
    assert(all[0] == 0x0000 && all[1] == 0x00ff && all[2] == 0x5600 && all.len() == 3);
    if is_held_back(code) {
        assert(all[0] == code || all[1] == code || all[2] == code);
    }
}

/// A suite may be offered unless its code is one of the three that are never offered.
pub proof fn all_but_three_may_be_offered(suite: CipherSuite, r: bool)
    requires
        call_ensures(CipherSuite::is_offerable, (&suite,), r),
    ensures
        r <==> !is_held_back(suite.code),
{
    held_back_codes(suite.code);
}

/// The suites of a catalog stand in the order of their codes.
pub proof fn catalogs_are_ordered(catalog: Catalog, suites: &Vec<CipherSuite>)
    requires
        call_ensures(Catalog::suites, (&catalog,), suites),
    ensures
        suites@ == catalog@,
        forall|i: int, j: int|
            0 <= i < j < suites@.len() ==> (#[trigger] suites@[i]).code < (
            #[trigger] suites@[j]).code,
{
}

/// A suite is found under its code, and nothing is found under a code that no suite has.
pub proof fn suites_are_found_by_code(
    catalog: Catalog,
    suites: &Vec<CipherSuite>,
    code: u16,
    found: Option<&CipherSuite>,
)
    requires
        call_ensures(Catalog::suites, (&catalog,), suites),
        call_ensures(cipher_suite::by_code, (&catalog, code), found),
    ensures
        forall|i: int|
            0 <= i < suites@.len() && (#[trigger] suites@[i]).code == code ==> found == Some(
                &suites@[i],
            ),
        (forall|i: int| 0 <= i < suites@.len() ==> (#[trigger] suites@[i]).code != code)
            ==> found is None,
{
    assert forall|i: int| 0 <= i < suites@.len() && (#[trigger] suites@[i]).code == code implies found
        == Some(&suites@[i]) by {
        assert(catalog@[i].code == code);
    }
    if let Some(suite) = found {
        let i = choose|i: int| 0 <= i < suites@.len() && suites@[i] == *suite;
        assert(suites@[i].code == code);
    }
}

proof fn filtered(suites: Seq<CipherSuite>, v: TlsVersion)
    requires
        cipher_suite::ascending(suites),
    ensures
        forall|i: int|
            0 <= i < suites.len() && lists(#[trigger] suites[i], v) ==> suites.filter(
                cipher_suite::supporting(v),
            ).contains(suites[i]),
        forall|k: int|
            0 <= k < suites.filter(cipher_suite::supporting(v)).len() ==> suites.contains(
                #[trigger] suites.filter(cipher_suite::supporting(v))[k],
            ) && lists(suites.filter(cipher_suite::supporting(v))[k], v),
        forall|k: int, l: int|
            0 <= k < l < suites.filter(cipher_suite::supporting(v)).len() ==> (
            #[trigger] suites.filter(cipher_suite::supporting(v))[k]).code < (
            #[trigger] suites.filter(cipher_suite::supporting(v))[l]).code,
    decreases suites.len(),
{
    reveal(Seq::filter);
    let all = suites.filter(cipher_suite::supporting(v));
    if suites.len() > 0 {
        let before = suites.drop_last();
        let last = suites.last();
        filtered(before, v);
        support_is_listing(last, v);
        let kept = before.filter(cipher_suite::supporting(v));
        assert forall|k: int| 0 <= k < kept.len() implies suites.contains(#[trigger] kept[k]) by {
            let i = choose|i: int| 0 <= i < before.len() && before[i] == kept[k];
            assert(suites[i] == kept[k]);
        }
        if lists(last, v) {
            assert(all == kept.push(last));
            assert(all[kept.len() as int] == last);
            assert(suites[suites.len() - 1] == last);
            assert forall|k: int, l: int| 0 <= k < l < all.len() implies (#[trigger] all[k]).code < (
            #[trigger] all[l]).code by {
                assert(all[k] == kept[k]);
                if l < kept.len() {
                    assert(all[l] == kept[l]);
                } else {
                    let i = choose|i: int| 0 <= i < before.len() && before[i] == kept[k];
                    assert(suites[i] == kept[k]);
                }
            }
            assert forall|k: int| 0 <= k < all.len() implies suites.contains(#[trigger] all[k])
                && lists(all[k], v) by {
                if k < kept.len() {
                    assert(all[k] == kept[k]);
                }
            }
        } else {
            assert(all == kept);
        }
        assert forall|i: int| 0 <= i < suites.len() && lists(#[trigger] suites[i], v) implies all.contains(
        suites[i]) by {
            if i < before.len() {
                assert(before[i] == suites[i]);
                let k = choose|k: int| 0 <= k < kept.len() && kept[k] == before[i];
                assert(all[k] == suites[i]);
            }
        }
    }
}

/// Under a version stand exactly the suites that list it, whatever else they list, each once, in
/// the order of their codes.
pub proof fn suites_stand_under_each_version_they_list(
    catalog: Catalog,
    suites: &Vec<CipherSuite>,
    v: TlsVersion,
    known: Vec<&CipherSuite>,
)
    requires
        call_ensures(Catalog::suites, (&catalog,), suites),
        call_ensures(cipher_suite::by_version, (&catalog, v), known),
    ensures
        forall|i: int, j: int|
            #![trigger suites@[i], suites@[i].tls_versions@[j]]
            0 <= i < suites@.len() && 0 <= j < suites@[i].tls_versions@.len()
                && suites@[i].tls_versions@[j] == v ==> exists|k: int|
                0 <= k < known@.len() && *(#[trigger] known@[k]) == suites@[i],
        forall|k: int|
            0 <= k < known@.len() ==> suites@.contains(*(#[trigger] known@[k])) && lists(
                *known@[k],
                v,
            ),
        forall|k: int, l: int|
            0 <= k < l < known@.len() ==> (#[trigger] known@[k]).code < (#[trigger] known@[l]).code,
{
    filtered(suites@, v);
    let all = known@.map_values(|s: &CipherSuite| *s);
    assert(all == suites@.filter(cipher_suite::supporting(v)));
    assert forall|k: int| 0 <= k < known@.len() implies suites@.contains(*(#[trigger] known@[k]))
        && lists(*known@[k], v) by {
        assert(all[k] == *known@[k]);
    }
    assert forall|k: int, l: int| 0 <= k < l < known@.len() implies (#[trigger] known@[k]).code < (
    #[trigger] known@[l]).code by {
        assert(all[k] == *known@[k] && all[l] == *known@[l]);
    }
    assert forall|i: int, j: int|
        #![trigger suites@[i], suites@[i].tls_versions@[j]]
        0 <= i < suites@.len() && 0 <= j < suites@[i].tls_versions@.len()
            && suites@[i].tls_versions@[j] == v implies exists|k: int|
        0 <= k < known@.len() && *(#[trigger] known@[k]) == suites@[i] by {
        assert(lists(suites@[i], v));
        let k = choose|k: int| 0 <= k < all.len() && all[k] == suites@[i];
        assert(*known@[k] == suites@[i]);
    }
}

/// A code is on offer under a version exactly if a suite has that code and lists the version,
/// whatever else it lists, and the code is none that is never offered. Codes are offered once, in
/// ascending order.
pub proof fn suites_are_offered_under_each_version_they_list(
    suites: Seq<CipherSuite>,
    v: TlsVersion,
)
    requires
        forall|i: int, j: int|
            0 <= i < j < suites.len() ==> (#[trigger] suites[i]).code < (#[trigger] suites[j]).code,
    ensures
        forall|i: int, j: int|
            #![trigger suites[i], suites[i].tls_versions@[j]]
            0 <= i < suites.len() && 0 <= j < suites[i].tls_versions@.len()
                && suites[i].tls_versions@[j] == v && !is_held_back(suites[i].code)
                ==> cipher_suite::offerable_codes(suites, v).contains(suites[i].code),
        forall|k: int|
            0 <= k < cipher_suite::offerable_codes(suites, v).len() ==> {
                &&& !is_held_back(#[trigger] cipher_suite::offerable_codes(suites, v)[k])
                &&& is_listed(suites, v, cipher_suite::offerable_codes(suites, v)[k])
            },
        forall|k: int, l: int|
            0 <= k < l < cipher_suite::offerable_codes(suites, v).len()
                ==> #[trigger] cipher_suite::offerable_codes(suites, v)[k]
                < #[trigger] cipher_suite::offerable_codes(suites, v)[l],
{
    let codes = cipher_suite::offerable_codes(suites, v);
    cipher_suite::offer_is_complete_and_clean(suites, v);
    assert forall|i: int, j: int|
        #![trigger suites[i], suites[i].tls_versions@[j]]
        0 <= i < suites.len() && 0 <= j < suites[i].tls_versions@.len() && suites[i].tls_versions@[j]
            == v && !is_held_back(suites[i].code) implies codes.contains(suites[i].code) by {
        assert(lists(suites[i], v));
        support_is_listing(suites[i], v);
        held_back_codes(suites[i].code);
        assert(suites[i].supports(v) && suites[i].offerable());
    }
    assert forall|k: int| 0 <= k < codes.len() implies {
        &&& !is_held_back(#[trigger] codes[k])
        &&& is_listed(suites, v, codes[k])
    } by {
        held_back_codes(codes[k]);
        let i = choose|i: int|
            0 <= i < suites.len() && suites[i].supports(v) && suites[i].offerable() && (
            #[trigger] suites[i]).code == codes[k];
        support_is_listing(suites[i], v);
        assert(suites[i].code == codes[k] && lists(suites[i], v));
    }
}

/// The codes to offer under a version are those of the suites that list it, but for the codes that
/// are never offered.
pub proof fn offers_are_complete(
    catalog: Catalog,
    suites: &Vec<CipherSuite>,
    v: TlsVersion,
    codes: Vec<u16>,
)
    requires
        call_ensures(Catalog::suites, (&catalog,), suites),
        call_ensures(cipher_suite::offerable_codes_for_version, (&catalog, v), codes),
    ensures
        forall|i: int, j: int|
            #![trigger suites@[i], suites@[i].tls_versions@[j]]
            0 <= i < suites@.len() && 0 <= j < suites@[i].tls_versions@.len()
                && suites@[i].tls_versions@[j] == v && !is_held_back(suites@[i].code)
                ==> codes@.contains(suites@[i].code),
        forall|k: int|
            0 <= k < codes@.len() ==> {
                &&& !is_held_back(#[trigger] codes@[k])
                &&& is_listed(suites@, v, codes@[k])
            },
        forall|k: int, l: int|
            0 <= k < l < codes@.len() ==> #[trigger] codes@[k] < #[trigger] codes@[l],
{
    suites_are_offered_under_each_version_they_list(suites@, v);
}

/// A security level is shown by its name, in green if it is secure, in yellow if it is weak and in
/// red if it is insecure.
pub proof fn levels_have_names_and_colors(level: Security, name: &'static str, color: Color)
    requires
        call_ensures(Security::name, (&level,), name),
        call_ensures(Security::as_color, (&level,), color),
    ensures
        level == Security::Insecure ==> name@ == "insecure"@ && color == Color::Red,
        level == Security::Weak ==> name@ == "weak"@ && color == Color::Yellow,
        level == Security::Secure ==> name@ == "secure"@ && color == Color::Green,
        level == Security::Recommended ==> name@ == "recommended"@ && color == Color::Green,
{
}

/// The name of a security level.
pub open spec fn level_name(level: Security) -> Seq<char> {
    match level {
        Security::Insecure => "insecure"@,
        Security::Weak => "weak"@,
        Security::Secure => "secure"@,
        Security::Recommended => "recommended"@,
    }
}

/// The sequence that turns on the color of a security level.
pub open spec fn level_color(level: Security) -> Seq<char> {
    match level {
        Security::Insecure => "\x1b[31m"@,
        Security::Weak => "\x1b[33m"@,
        Security::Secure => "\x1b[32m"@,
        Security::Recommended => "\x1b[32m"@,
    }
}

/// Whether `s` shows a suite: its name, its code in four hexadecimal digits, and its level, between
/// the sequences for the level's color if there are colors.
pub open spec fn shows_suite(s: Seq<char>, suite: CipherSuite, colors: bool) -> bool {
    exists|digits: Seq<char>|
        {
            &&& #[trigger] digits.len() == 4
            &&& forall|i: int| 0 <= i < 4 ==> 0 <= read::hex_value(#[trigger] digits[i]) < 16
            &&& read::hex_value(digits[0]) * 4096 + read::hex_value(digits[1]) * 256
                + read::hex_value(digits[2]) * 16 + read::hex_value(digits[3]) == suite.code
            &&& s == if colors {
                level_color(suite.security) + (suite.iana_name@ + " (0x"@ + digits + ") "@
                    + level_name(suite.security)) + "\x1b[0m"@
            } else {
                suite.iana_name@ + " (0x"@ + digits + ") "@ + level_name(suite.security)
            }
        }
}

/// What `shown` gives shows the suite.
pub proof fn shown_suites_show_the_suite(suite: CipherSuite, colors: bool)
    ensures
        shows_suite(suite.shown(colors), suite, colors),
{
    read::code_texts_can_be_read_back(suite.code);
    let digits = text::hex4_text(suite.code);
    assert(digits.len() == 4);
}

/// A suite is shown by its name, its code and its level, in the level's color where colors are
/// asked for, or where standard output was found to take them.
pub proof fn suites_are_shown(suite: CipherSuite, colors: bool, s: String, d: String)
    requires
        call_ensures(CipherSuite::styled, (&suite, colors), s),
        call_ensures(CipherSuite::display, (&suite,), d),
    ensures
        shows_suite(s@, suite, colors),
        exists|on: bool| #[trigger]
            cipher_suite::were_colors_taken(on) && shows_suite(d@, suite, on),
{
    shown_suites_show_the_suite(suite, colors);
    let on = choose|on: bool| #[trigger]
        cipher_suite::were_colors_taken(on) && d@ == suite.shown(on);
    shown_suites_show_the_suite(suite, on);
}

} // verus!
