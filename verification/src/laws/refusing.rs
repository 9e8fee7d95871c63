//! Promises about which lists make a catalog, which bytes can be read, and in what order a suite
//! lists its versions.

use vstd::prelude::*;

use crate::laws::building;
use crate::text;
use crate::tls::cipher_suite::Catalog;
use crate::tls::ciphers;
use crate::tls::ciphers::{CatalogError, RawSuite, SuiteModel};
use crate::tls::{CipherSuite, TlsVersion};

verus! {

// ---------------------------------------------------------------------------
// Why a list makes no catalog
// ---------------------------------------------------------------------------

/// Whether a byte of some listed suite cannot be read.
pub open spec fn has_bad_byte(raws: Seq<(String, RawSuite)>) -> bool {
    exists|i: int|
        0 <= i < raws.len() && (ciphers::hex_byte((#[trigger] raws[i]).1.hex_byte_1@) is None
            || ciphers::hex_byte(raws[i].1.hex_byte_2@) is None)
}

/// Whether all labels of a listed suite are empty or name a version.
pub open spec fn has_good_labels(raw: RawSuite) -> bool {
    forall|j: int|
        0 <= j < raw.tls_version@.len() ==> building::is_version_label(
            (#[trigger] raw.tls_version@[j])@,
        )
}

/// Whether a label of some listed suite names no version.
pub open spec fn has_bad_label(raws: Seq<(String, RawSuite)>) -> bool {
    exists|i: int| 0 <= i < raws.len() && !has_good_labels((#[trigger] raws[i]).1)
}

/// Whether the level of some listed suite does not exist.
pub open spec fn has_bad_level(raws: Seq<(String, RawSuite)>) -> bool {
    exists|i: int|
        0 <= i < raws.len() && (#[trigger] raws[i]).1.security@ != "recommended"@
            && raws[i].1.security@ != "secure"@ && raws[i].1.security@ != "weak"@
            && raws[i].1.security@ != "insecure"@
}

/// Whether two listed suites have the same code.
pub open spec fn repeats_code(raws: Seq<(String, RawSuite)>) -> bool {
    exists|i: int, j: int|
        0 <= i < j < raws.len() && building::same_code(
            (#[trigger] raws[i]).1,
            (#[trigger] raws[j]).1,
        )
}

/// Whether a name is that of a FORTEZZA suite that is added to the list.
pub open spec fn is_name_of_added(raws: Seq<(String, RawSuite)>, name: Seq<char>) -> bool {
    ||| name == "SSL_FORTEZZA_KEA_WITH_NULL_SHA"@ && !building::is_taken(raws, 0x001c)
    ||| name == "SSL_FORTEZZA_KEA_WITH_FORTEZZA_CBC_SHA"@ && !building::is_taken(raws, 0x001d)
    ||| name == "SSL_FORTEZZA_KEA_WITH_RC4_128_SHA"@ && !building::is_taken(raws, 0x001e)
}

/// Whether two listed suites have the same name.
pub open spec fn repeats_listed_name(raws: Seq<(String, RawSuite)>) -> bool {
    exists|i: int, j: int|
        0 <= i < j < raws.len() && (#[trigger] raws[i]).0@ == (#[trigger] raws[j]).0@
}

/// Whether a listed suite has the name of one that is added.
pub open spec fn repeats_added_name(raws: Seq<(String, RawSuite)>) -> bool {
    exists|i: int| 0 <= i < raws.len() && is_name_of_added(raws, (#[trigger] raws[i]).0@)
}

proof fn bad_bytes(raws: Seq<(String, RawSuite)>)
    ensures
        ciphers::has_bad_hex(ciphers::raw_models(raws)) <==> has_bad_byte(raws),
{
    let models = ciphers::raw_models(raws);
    if ciphers::has_bad_hex(models) {
        let i = choose|i: int|
            0 <= i < models.len() && ciphers::code_of(#[trigger] models[i]) is None;
        assert(ciphers::hex_byte(raws[i].1.hex_byte_1@) is None || ciphers::hex_byte(
            raws[i].1.hex_byte_2@,
        ) is None);
    }
    if has_bad_byte(raws) {
        let i = choose|i: int|
            0 <= i < raws.len() && (ciphers::hex_byte((#[trigger] raws[i]).1.hex_byte_1@) is None
                || ciphers::hex_byte(raws[i].1.hex_byte_2@) is None);
        assert(ciphers::code_of(models[i]) is None);
    }
}

proof fn bad_labels(raws: Seq<(String, RawSuite)>)
    ensures
        ciphers::some_unknown_version(ciphers::raw_models(raws)) <==> has_bad_label(raws),
{
    let models = ciphers::raw_models(raws);
    if ciphers::some_unknown_version(models) {
        let i = choose|i: int|
            0 <= i < models.len() && ciphers::has_unknown_version(
                (#[trigger] models[i]).tls_version,
            );
        building::unknown_versions(raws[i].1);
        assert(!has_good_labels(raws[i].1));
    }
    if has_bad_label(raws) {
        let i = choose|i: int| 0 <= i < raws.len() && !has_good_labels((#[trigger] raws[i]).1);
        building::unknown_versions(raws[i].1);
        assert(ciphers::has_unknown_version(models[i].tls_version));
    }
}

proof fn bad_levels(raws: Seq<(String, RawSuite)>)
    ensures
        ciphers::some_unknown_security(ciphers::raw_models(raws)) <==> has_bad_level(raws),
{
    let models = ciphers::raw_models(raws);
    if ciphers::some_unknown_security(models) {
        let i = choose|i: int|
            0 <= i < models.len() && ciphers::security_of((#[trigger] models[i]).security) is None;
        assert(raws[i].1.security@ == models[i].security);
    }
    if has_bad_level(raws) {
        let i = choose|i: int|
            0 <= i < raws.len() && (#[trigger] raws[i]).1.security@ != "recommended"@
                && raws[i].1.security@ != "secure"@ && raws[i].1.security@ != "weak"@
                && raws[i].1.security@ != "insecure"@;
        assert(ciphers::security_of(models[i].security) is None);
    }
}

proof fn repeated_codes(raws: Seq<(String, RawSuite)>)
    requires
        !has_bad_byte(raws),
    ensures
        ciphers::some_duplicate_code(ciphers::raw_models(raws)) <==> repeats_code(raws),
{
    let models = ciphers::raw_models(raws);
    bad_bytes(raws);
    if ciphers::some_duplicate_code(models) {
        let (i, j) = choose|i: int, j: int|
            0 <= i < j < models.len() && ciphers::code_of(#[trigger] models[i])
                == ciphers::code_of(#[trigger] models[j]);
        assert(ciphers::code_of(models[i]) is Some);
        let code = ciphers::code_of(models[i])->0;
        assert(building::has_code(raws[i].1, code) && building::has_code(raws[j].1, code));
        assert(building::same_code(raws[i].1, raws[j].1));
    }
    if repeats_code(raws) {
        let (i, j) = choose|i: int, j: int|
            0 <= i < j < raws.len() && building::same_code(
                (#[trigger] raws[i]).1,
                (#[trigger] raws[j]).1,
            );
        let code = choose|code: u16| #[trigger]
            building::has_code(raws[i].1, code) && building::has_code(raws[j].1, code);
        assert(ciphers::code_of(models[i]) == Some(code));
        assert(ciphers::code_of(models[j]) == Some(code));
    }
}

proof fn added_entry(raws: Seq<(String, RawSuite)>, f: int)
    requires
        0 <= f < 3,
        !building::is_taken(raws, ciphers::fortezza_entries()[f].code),
    ensures
        ciphers::is_entry(ciphers::raw_models(raws), ciphers::fortezza_entries()[f]),
{
    let m = ciphers::fortezza_entries()[f];
    building::taken_codes(raws, m.code);
    assert(ciphers::fortezza_entries()[f] == m);
    assert(ciphers::fortezza_entries().contains(m));
}

proof fn repeated_names_are_told(raws: Seq<(String, RawSuite)>)
    requires
        !has_bad_byte(raws),
        !repeats_code(raws),
        repeats_listed_name(raws) || repeats_added_name(raws),
    ensures
        ciphers::some_duplicate_name(ciphers::raw_models(raws)),
{
    let models = ciphers::raw_models(raws);
    bad_bytes(raws);
    repeated_codes(raws);
    if repeats_listed_name(raws) {
        let (i, j) = choose|i: int, j: int|
            0 <= i < j < raws.len() && (#[trigger] raws[i]).0@ == (#[trigger] raws[j]).0@;
        let m = ciphers::listed_entry(models[i]);
        let n = ciphers::listed_entry(models[j]);
        assert(ciphers::is_entry(models, m) && ciphers::is_entry(models, n));
        assert(ciphers::code_of(models[i]) is Some && ciphers::code_of(models[j]) is Some);
        assert(ciphers::code_of(models[i]) != ciphers::code_of(models[j]));
    } else {
        let i = choose|i: int|
            0 <= i < raws.len() && is_name_of_added(raws, (#[trigger] raws[i]).0@);
        let name = raws[i].0@;
        let all = ciphers::fortezza_entries();
        let f = if name == all[0].iana_name && !building::is_taken(raws, 0x001c) {
            0int
        } else if name == all[1].iana_name && !building::is_taken(raws, 0x001d) {
            1int
        } else {
            2int
        };
        let m = ciphers::listed_entry(models[i]);
        let n = all[f];
        assert(n.iana_name == name && !building::is_taken(raws, n.code));
        added_entry(raws, f);
        assert(ciphers::is_entry(models, m) && ciphers::is_entry(models, n));
        assert(ciphers::code_of(models[i]) is Some);
        assert(building::has_code(raws[i].1, m.code));
        assert(m.code != n.code);
    }
}

proof fn told_names_are_repeated(raws: Seq<(String, RawSuite)>)
    requires
        ciphers::some_duplicate_name(ciphers::raw_models(raws)),
    ensures
        repeats_listed_name(raws) || repeats_added_name(raws),
{
    let models = ciphers::raw_models(raws);
    let (m, n) = choose|m: SuiteModel, n: SuiteModel|
        #[trigger] ciphers::is_entry(models, m) && #[trigger] ciphers::is_entry(models, n)
            && m.code != n.code && m.iana_name == n.iana_name;
    let listed = |e: SuiteModel| exists|i: int|
        0 <= i < models.len() && e == ciphers::listed_entry(#[trigger] models[i]);
    if listed(m) && listed(n) {
        let i = choose|i: int|
            0 <= i < models.len() && m == ciphers::listed_entry(#[trigger] models[i]);
        let j = choose|j: int|
            0 <= j < models.len() && n == ciphers::listed_entry(#[trigger] models[j]);
        assert(i != j);
        assert(raws[i].0@ == raws[j].0@);
        if i < j {
            assert(repeats_listed_name(raws));
        } else {
            assert(raws[j].0@ == raws[i].0@);
            assert(repeats_listed_name(raws));
        }
    } else if listed(m) {
        let i = choose|i: int|
            0 <= i < models.len() && m == ciphers::listed_entry(#[trigger] models[i]);
        added_name(raws, n);
        assert(is_name_of_added(raws, raws[i].0@));
    } else if listed(n) {
        let j = choose|j: int|
            0 <= j < models.len() && n == ciphers::listed_entry(#[trigger] models[j]);
        added_name(raws, m);
        assert(is_name_of_added(raws, raws[j].0@));
    } else {
        building::fortezza_names_differ();
        let all = ciphers::fortezza_entries();
        assert(all.len() == 3);
        let f = choose|f: int| 0 <= f < all.len() && all[f] == m;
        let g = choose|g: int| 0 <= g < all.len() && all[g] == n;
        assert(f == 0 || f == 1 || f == 2);
        assert(g == 0 || g == 1 || g == 2);
    }
}

proof fn added_name(raws: Seq<(String, RawSuite)>, m: SuiteModel)
    requires
        ciphers::fortezza_entries().contains(m),
        !ciphers::lists_code(ciphers::raw_models(raws), m.code),
    ensures
        is_name_of_added(raws, m.iana_name),
{
    let all = ciphers::fortezza_entries();
    building::taken_codes(raws, m.code);
    assert(all.len() == 3);
    let f = choose|f: int| 0 <= f < all.len() && all[f] == m;
    assert(f == 0 || f == 1 || f == 2);
}

/// A list makes a catalog exactly if nothing is wrong with it, and of several things that are
/// wrong, the first of these is told: a byte that cannot be read, no suite at all, a label that
/// names no version, a level that does not exist, a code that occurs twice, a name that occurs
/// twice.
pub proof fn causes_are_told_in_order(
    raws: Vec<(String, RawSuite)>,
    r: Result<Catalog, CatalogError>,
)
    requires
        call_ensures(ciphers::build, (raws,), r),
    ensures
        match r {
            Ok(_) => {
                &&& !has_bad_byte(raws@)
                &&& raws@.len() > 0
                &&& !has_bad_label(raws@)
                &&& !has_bad_level(raws@)
                &&& !repeats_code(raws@)
                &&& !repeats_listed_name(raws@)
                &&& !repeats_added_name(raws@)
            },
            Err(CatalogError::BadHexByte) => has_bad_byte(raws@),
            Err(CatalogError::Empty) => raws@.len() == 0,
            Err(CatalogError::UnknownVersion) => {
                &&& !has_bad_byte(raws@)
                &&& has_bad_label(raws@)
            },
            Err(CatalogError::UnknownSecurity) => {
                &&& !has_bad_byte(raws@)
                &&& !has_bad_label(raws@)
                &&& has_bad_level(raws@)
            },
            Err(CatalogError::DuplicateCode) => {
                &&& !has_bad_byte(raws@)
                &&& !has_bad_label(raws@)
                &&& !has_bad_level(raws@)
                &&& repeats_code(raws@)
            },
            Err(CatalogError::DuplicateName) => {
                &&& !has_bad_byte(raws@)
                &&& !has_bad_label(raws@)
                &&& !has_bad_level(raws@)
                &&& !repeats_code(raws@)
                &&& repeats_listed_name(raws@) || repeats_added_name(raws@)
            },
        },
{
    let models = ciphers::raw_models(raws@);
    bad_bytes(raws@);
    bad_labels(raws@);
    bad_levels(raws@);
    if !has_bad_byte(raws@) {
        repeated_codes(raws@);
        if !repeats_code(raws@) && (repeats_listed_name(raws@) || repeats_added_name(raws@)) {
            repeated_names_are_told(raws@);
        }
    }
    if ciphers::some_duplicate_name(models) {
        told_names_are_repeated(raws@);
    }
}

// ---------------------------------------------------------------------------
// Bytes
// ---------------------------------------------------------------------------

/// Whether pairs of `0` and `x` stand at the places from `from` up to `to`.
pub open spec fn holds_pairs(s: Seq<char>, from: int, to: int, x: char) -> bool {
    &&& 0 <= from <= to <= s.len()
    &&& (to - from) % 2 == 0
    &&& forall|i: int|
        from <= i < to ==> #[trigger] s[i] == if (i - from) % 2 == 0 {
            '0'
        } else {
            x
        }
}

/// Whether `s` is made of pairs of `0` and `x` up to `a`, of pairs of `0` and `X` from there up to
/// `b`, and of hexadecimal digits from `c` on, with nothing or a plus sign in between.
pub open spec fn is_written(s: Seq<char>, a: int, b: int, c: int) -> bool {
    &&& holds_pairs(s, 0, a, 'x')
    &&& holds_pairs(s, a, b, 'X')
    &&& c == b || c == b + 1 && b < s.len() && s[b] == '+'
    &&& c <= s.len() && building::is_digits(s.skip(c))
}

proof fn stripped(s: Seq<char>, x: char) -> (to: int)
    ensures
        holds_pairs(s, 0, to, x),
        ciphers::strip_prefix(s, x) == s.skip(to),
    decreases s.len(),
{
    if s.len() >= 2 && s[0] == '0' && s[1] == x {
        let rest = s.skip(2);
        let to = stripped(rest, x);
        assert forall|i: int| 0 <= i < to + 2 implies #[trigger] s[i] == if i % 2 == 0 {
            '0'
        } else {
            x
        } by {
            if i >= 2 {
                assert(rest[i - 2] == s[i]);
                assert((i - 2) % 2 == i % 2);
            }
        }
        assert(rest.skip(to) =~= s.skip(to + 2));
        to + 2
    } else {
        assert(s.skip(0) =~= s);
        0
    }
}

/// A byte is read only from hexadecimal digits with a value below 256, behind a plus sign or none,
/// and behind pairs of `0` and `x` or `X`.
pub proof fn only_digits_are_read(s: &str, r: Option<u8>)
    requires
        call_ensures(ciphers::parse_hex_byte, (s,), r),
    ensures
        r matches Some(byte) ==> exists|a: int, b: int, c: int| #[trigger]
            is_written(s@, a, b, c) && building::number(s@.skip(c)) == byte,
{
    if let Some(byte) = r {
        let text = s@;
        let a = stripped(text, 'x');
        let rest = text.skip(a);
        let more = stripped(rest, 'X');
        let b = a + more;
        let t = rest.skip(more);
        assert(t =~= text.skip(b));
        assert forall|i: int| a <= i < b implies #[trigger] text[i] == if (i - a) % 2 == 0 {
            '0'
        } else {
            'X'
        } by {
            assert(rest[i - a] == text[i]);
        }
        let c = if t.len() > 0 && t[0] == '+' {
            b + 1
        } else {
            b
        };
        let digits = text.skip(c);
        assert(t.skip(c - b) =~= digits);
        assert(t.skip(0) =~= t);
        assert(ciphers::all_digits(digits));
        assert forall|i: int| 0 <= i < digits.len() implies building::digit(
            #[trigger] digits[i],
        ) >= 0 by {
            assert(ciphers::digit_value(digits[i]) is Some);
        }
        building::same_number(digits);
        assert(is_written(text, a, b, c));
    }
}

// ---------------------------------------------------------------------------
// Versions
// ---------------------------------------------------------------------------

/// Whether a label names a version.
pub open spec fn names_some_version(label: String) -> bool {
    exists|v: TlsVersion| #[trigger] building::names_version(label@, v)
}

/// The version that a label names.
pub open spec fn named_version(label: String) -> TlsVersion {
    choose|v: TlsVersion| #[trigger] building::names_version(label@, v)
}

/// The versions that labels name, in the order of the labels.
pub open spec fn named_in_order(labels: Seq<String>) -> Seq<TlsVersion> {
    labels.filter(|l: String| names_some_version(l)).map_values(|l: String| named_version(l))
}

proof fn one_version(label: String)
    ensures
        ciphers::version_of(label@) matches Ok(Some(v)) <==> names_some_version(label),
        ciphers::version_of(label@) matches Ok(Some(v)) ==> v == named_version(label),
{
    building::labels_differ();
    if names_some_version(label) {
        let v = named_version(label);
        building::version_labels(label@, v);
    }
    if let Ok(Some(v)) = ciphers::version_of(label@) {
        building::version_labels(label@, v);
        assert(building::names_version(label@, v));
        let w = named_version(label);
        building::version_labels(label@, w);
    }
}

proof fn versions_in_order(labels: Seq<String>)
    ensures
        ciphers::versions_of(text::texts(labels)) == named_in_order(labels),
    decreases labels.len(),
{
    reveal(Seq::filter);
    let names = |l: String| names_some_version(l);
    let version = |l: String| named_version(l);
    if labels.len() > 0 {
        let before = labels.drop_last();
        versions_in_order(before);
        one_version(labels.last());
        assert(text::texts(labels).drop_last() =~= text::texts(before));
        assert(text::texts(labels).last() == labels.last()@);
        if names_some_version(labels.last()) {
            assert(labels.filter(names) == before.filter(names).push(labels.last()));
            assert(labels.filter(names).map_values(version) =~= before.filter(names).map_values(
                version,
            ).push(named_version(labels.last())));
        } else {
            assert(labels.filter(names) == before.filter(names));
        }
    } else {
        assert(labels.filter(names).map_values(version) =~= seq![]);
    }
}

/// Whether a suite lists what its labels name, in order, and behind that SSL 3.0, if it works over
/// SSL 3.0 and no label is `SSL3.0`.
pub open spec fn lists_in_order(s: CipherSuite, name: Seq<char>, raw: RawSuite) -> bool {
    s.tls_versions@ == if building::works_over_ssl3(s.code, name, raw) && (forall|j: int|
        0 <= j < raw.tls_version@.len() ==> (#[trigger] raw.tls_version@[j])@ != "SSL3.0"@) {
        named_in_order(raw.tls_version@).push(TlsVersion::Ssl30)
    } else {
        named_in_order(raw.tls_version@)
    }
}

proof fn labels_in_order(s: CipherSuite, name: String, raw: RawSuite)
    requires
        ciphers::suite_model(s) == ciphers::listed_entry(ciphers::raw_model(name, raw)),
    ensures
        lists_in_order(s, name@, raw),
{
    let model = ciphers::raw_model(name, raw);
    let labels = model.tls_version;
    building::capable_suites_work(s.code, name, raw);
    building::labels_differ();
    versions_in_order(raw.tls_version@);
    assert(labels.contains("SSL3.0"@) <==> !(forall|j: int|
        0 <= j < raw.tls_version@.len() ==> (#[trigger] raw.tls_version@[j])@ != "SSL3.0"@)) by {
        if labels.contains("SSL3.0"@) {
            let j = choose|j: int| 0 <= j < labels.len() && labels[j] == "SSL3.0"@;
            assert(raw.tls_version@[j]@ == "SSL3.0"@);
        }
        if !(forall|j: int|
            0 <= j < raw.tls_version@.len() ==> (#[trigger] raw.tls_version@[j])@ != "SSL3.0"@) {
            let j = choose|j: int|
                0 <= j < raw.tls_version@.len() && (#[trigger] raw.tls_version@[j])@ == "SSL3.0"@;
            assert(labels[j] == "SSL3.0"@);
        }
    }
    assert(labels.push("SSL3.0"@).drop_last() =~= labels);
    assert(s.tls_versions@ == ciphers::versions_of(ciphers::labels_of(model)));
}

/// Every listed suite stands in the catalog with the versions that its labels name, in their order.
pub proof fn versions_keep_their_order(
    raws: Vec<(String, RawSuite)>,
    catalog: Catalog,
    suites: &Vec<CipherSuite>,
    i: int,
)
    requires
        call_ensures(ciphers::build, (raws,), Ok::<Catalog, CatalogError>(catalog)),
        call_ensures(Catalog::suites, (&catalog,), suites),
        0 <= i < raws@.len(),
    ensures
        forall|k: int|
            0 <= k < suites@.len() && building::has_code(raws@[i].1, (#[trigger] suites@[k]).code)
                ==> lists_in_order(suites@[k], raws@[i].0@, raws@[i].1),
{
    let models = ciphers::raw_models(raws@);
    assert(ciphers::is_built(models, catalog@));
    let m = ciphers::listed_entry(models[i]);
    assert(ciphers::is_entry(models, m));
    assert(ciphers::holds(suites@, m));
    let l = choose|l: int|
        0 <= l < suites@.len() && ciphers::suite_model(#[trigger] suites@[l]) == m;
    assert(models[i] == ciphers::raw_model(raws@[i].0, raws@[i].1));
    assert forall|k: int|
        0 <= k < suites@.len() && building::has_code(
            raws@[i].1,
            (#[trigger] suites@[k]).code,
        ) implies lists_in_order(suites@[k], raws@[i].0@, raws@[i].1) by {
        assert(ciphers::code_of(models[i]) == Some(suites@[k].code));
        assert(suites@[l].code == suites@[k].code);
        if k < l {
            assert(suites@[k].code < suites@[l].code);
        }
        if l < k {
            assert(suites@[l].code < suites@[k].code);
        }
        labels_in_order(suites@[k], raws@[i].0, raws@[i].1);
    }
}

} // verus!
