//! Promises about how the catalog is made from what the service lists.

use vstd::prelude::*;

use crate::text;
use crate::tls::cipher_suite::Catalog;
use crate::tls::ciphers;
use crate::tls::ciphers::{CatalogError, RawSuite, SuiteModel};
use crate::tls::{CipherSuite, Security, TlsVersion};

verus! {

// ---------------------------------------------------------------------------
// Hexadecimal bytes
// ---------------------------------------------------------------------------

/// The value of a hexadecimal digit in either case; -1 of another character.
pub open spec fn digit(c: char) -> int {
    if '0' <= c <= '9' {
        c as int - 48
    } else if 'a' <= c <= 'f' {
        c as int - 87
    } else if 'A' <= c <= 'F' {
        c as int - 55
    } else {
        -1
    }
}

/// Whether a text is made of hexadecimal digits, at least one.
pub open spec fn is_digits(s: Seq<char>) -> bool {
    s.len() > 0 && forall|i: int| 0 <= i < s.len() ==> digit(#[trigger] s[i]) >= 0
}

/// The number that hexadecimal digits stand for.
pub open spec fn number(s: Seq<char>) -> int
    decreases s.len(),
{
    if s.len() == 0 {
        0
    } else {
        number(s.drop_last()) * 16 + digit(s.last())
    }
}

pub(crate) proof fn same_number(s: Seq<char>)
    requires
        forall|i: int| 0 <= i < s.len() ==> digit(#[trigger] s[i]) >= 0,
    ensures
        ciphers::all_digits(s),
        ciphers::hex_number(s) == number(s),
        number(s) >= 0,
    decreases s.len(),
{
    assert forall|i: int| 0 <= i < s.len() implies ciphers::digit_value(#[trigger] s[i]) == Some(
        digit(s[i]),
    ) by {
        assert(digit(s[i]) >= 0);
    }
    if s.len() > 0 {
        let before = s.drop_last();
        assert forall|i: int| 0 <= i < before.len() implies digit(#[trigger] before[i]) >= 0 by {
            assert(before[i] == s[i]);
        }
        same_number(before);
        assert(digit(s[s.len() - 1]) >= 0);
    }
}

proof fn digits_have_no_prefix(s: Seq<char>)
    requires
        is_digits(s),
    ensures
        ciphers::strip_prefix(s, 'x') == s,
        ciphers::strip_prefix(s, 'X') == s,
        s[0] != '+',
{
    assert(digit(s[0]) >= 0);
    if s.len() >= 2 {
        assert(digit(s[1]) >= 0);
    }
}

/// A byte is read from hexadecimal digits by their value, in either case, with any zeros in front,
/// and behind a plus sign too; a value of 256 or more is no byte.
pub proof fn digits_are_read(s: &str, r: Option<u8>)
    requires
        call_ensures(ciphers::parse_hex_byte, (s,), r),
    ensures
        is_digits(s@) && number(s@) < 256 ==> r == Some(number(s@) as u8),
        is_digits(s@) && number(s@) >= 256 ==> r is None,
        s@.len() > 0 && s@[0] == '+' && is_digits(s@.skip(1)) && number(s@.skip(1)) < 256 ==> r
            == Some(number(s@.skip(1)) as u8),
        s@.len() > 0 && s@[0] == '+' && is_digits(s@.skip(1)) && number(s@.skip(1)) >= 256
            ==> r is None,
        s@.len() == 0 ==> r is None,
        (exists|i: int|
            0 <= i < s@.len() && digit(#[trigger] s@[i]) < 0 && s@[i] != 'x' && s@[i] != 'X'
                && s@[i] != '+') ==> r is None,
{
    hex_bytes(s@);
}

proof fn hex_bytes(s: Seq<char>)
    ensures
        is_digits(s) && number(s) < 256 ==> ciphers::hex_byte(s) == Some(number(s) as u8),
        is_digits(s) && number(s) >= 256 ==> ciphers::hex_byte(s) is None,
        s.len() > 0 && s[0] == '+' && is_digits(s.skip(1)) && number(s.skip(1)) < 256
            ==> ciphers::hex_byte(s) == Some(number(s.skip(1)) as u8),
        s.len() > 0 && s[0] == '+' && is_digits(s.skip(1)) && number(s.skip(1)) >= 256
            ==> ciphers::hex_byte(s) is None,
        s.len() == 0 ==> ciphers::hex_byte(s) is None,
        (exists|i: int|
            0 <= i < s.len() && digit(#[trigger] s[i]) < 0 && s[i] != 'x' && s[i] != 'X' && s[i]
                != '+') ==> ciphers::hex_byte(s) is None,
{
    if is_digits(s) {
        digits_have_no_prefix(s);
        same_number(s);
    }
    if s.len() > 0 && s[0] == '+' && is_digits(s.skip(1)) {
        assert(ciphers::strip_prefix(s, 'x') == s);
        assert(ciphers::strip_prefix(s, 'X') == s);
        same_number(s.skip(1));
    }
    if exists|i: int|
        0 <= i < s.len() && digit(#[trigger] s[i]) < 0 && s[i] != 'x' && s[i] != 'X' && s[i] != '+' {
        let i = choose|i: int|
            0 <= i < s.len() && digit(#[trigger] s[i]) < 0 && s[i] != 'x' && s[i] != 'X' && s[i]
                != '+';
        stray_character_stays(s, 'x', i);
        let t = ciphers::strip_prefix(s, 'x');
        let j = i - (s.len() - t.len());
        stray_character_stays(t, 'X', j);
        let u = ciphers::strip_prefix(t, 'X');
        let k = j - (t.len() - u.len());
        let digits = if u.len() > 0 && u[0] == '+' {
            u.skip(1)
        } else {
            u
        };
        let l = if u.len() > 0 && u[0] == '+' {
            k - 1
        } else {
            k
        };
        assert(digits[l] == s[i]);
        assert(ciphers::digit_value(digits[l]) is None);
    }
}

proof fn stray_character_stays(s: Seq<char>, x: char, i: int)
    requires
        0 <= i < s.len(),
        s[i] != '0',
        s[i] != x,
    ensures
        ({
            let t = ciphers::strip_prefix(s, x);
            let j = i - (s.len() - t.len());
            t.len() <= s.len() && 0 <= j < t.len() && t[j] == s[i]
        }),
    decreases s.len(),
{
    if s.len() >= 2 && s[0] == '0' && s[1] == x {
        assert(i >= 2);
        assert(s.skip(2)[i - 2] == s[i]);
        stray_character_stays(s.skip(2), x, i - 2);
    }
}

/// `0x` in front changes nothing, and neither does `0X` unless `0x` follows.
pub proof fn prefixes_change_nothing(t: Seq<char>)
    ensures
        ciphers::hex_byte(seq!['0', 'x'] + t) == ciphers::hex_byte(t),
        !(t.len() >= 2 && t[0] == '0' && t[1] == 'x') ==> ciphers::hex_byte(seq!['0', 'X'] + t)
            == ciphers::hex_byte(t),
{
    let a = seq!['0', 'x'] + t;
    let b = seq!['0', 'X'] + t;
    assert(a.skip(2) =~= t);
    assert(b.skip(2) =~= t);
    assert(ciphers::strip_prefix(a, 'x') == ciphers::strip_prefix(t, 'x'));
    assert(ciphers::strip_prefix(b, 'x') == b);
    assert(ciphers::strip_prefix(b, 'X') == ciphers::strip_prefix(t, 'X'));
}

/// What `parse_hex_byte` returns is `hex_byte` of the text, and so a suite's code is that of its two
/// bytes, the first of which is the high-order byte.
pub proof fn codes_are_made_of_two_bytes(s: &str, r: Option<u8>, raw: RawSuite, code: Option<u16>)
    requires
        call_ensures(ciphers::parse_hex_byte, (s,), r),
        call_ensures(ciphers::suite_code, (&raw,), code),
    ensures
        r == ciphers::hex_byte(s@),
        code matches Some(c) ==> (ciphers::hex_byte(raw.hex_byte_1@) matches Some(high) && (
        ciphers::hex_byte(raw.hex_byte_2@) matches Some(low) && c == high * 256 + low)),
        code is None ==> ciphers::hex_byte(raw.hex_byte_1@) is None || ciphers::hex_byte(
            raw.hex_byte_2@,
        ) is None,
{
}

// ---------------------------------------------------------------------------
// Labels
// ---------------------------------------------------------------------------

/// Whether a label of the service names a version.
pub open spec fn names_version(label: Seq<char>, v: TlsVersion) -> bool {
    match v {
        TlsVersion::Ssl20 => label == "SSL2.0"@ || label == "SSL2"@,
        TlsVersion::Ssl30 => label == "SSL3.0"@ || label == "SSL3"@,
        TlsVersion::Tls10 => label == "TLS1.0"@,
        TlsVersion::Tls11 => label == "TLS1.1"@,
        TlsVersion::Tls12 => label == "TLS1.2"@,
        TlsVersion::Tls13 => label == "TLS1.3"@,
    }
}

/// Whether the service names a security level so.
pub open spec fn names_level(label: Seq<char>, level: Security) -> bool {
    match level {
        Security::Recommended => label == "recommended"@,
        Security::Secure => label == "secure"@,
        Security::Weak => label == "weak"@,
        Security::Insecure => label == "insecure"@,
    }
}

pub(crate) proof fn labels_differ()
    ensures
        "SSL2.0"@.len() == 6 && "SSL2.0"@[0] == 'S' && "SSL2.0"@[3] == '2',
        "SSL2"@.len() == 4 && "SSL2"@[3] == '2',
        "SSL3.0"@.len() == 6 && "SSL3.0"@[0] == 'S' && "SSL3.0"@[3] == '3',
        "SSL3"@.len() == 4 && "SSL3"@[3] == '3',
        "TLS1.0"@.len() == 6 && "TLS1.0"@[0] == 'T' && "TLS1.0"@[5] == '0',
        "TLS1.1"@.len() == 6 && "TLS1.1"@[0] == 'T' && "TLS1.1"@[5] == '1',
        "TLS1.2"@.len() == 6 && "TLS1.2"@[0] == 'T' && "TLS1.2"@[5] == '2',
        "TLS1.3"@.len() == 6 && "TLS1.3"@[0] == 'T' && "TLS1.3"@[5] == '3',
        ""@.len() == 0,
        "recommended"@.len() == 11,
        "secure"@.len() == 6,
        "weak"@.len() == 4,
        "insecure"@.len() == 8,
{
    reveal_strlit("SSL2.0");
    reveal_strlit("SSL2");
    reveal_strlit("SSL3.0");
    reveal_strlit("SSL3");
    reveal_strlit("TLS1.0");
    reveal_strlit("TLS1.1");
    reveal_strlit("TLS1.2");
    reveal_strlit("TLS1.3");
    reveal_strlit("");
    reveal_strlit("recommended");
    reveal_strlit("secure");
    reveal_strlit("weak");
    reveal_strlit("insecure");
}

pub(crate) proof fn version_labels(label: Seq<char>, v: TlsVersion)
    ensures
        ciphers::version_of(label) == Ok::<Option<TlsVersion>, CatalogError>(Some(v))
            <==> names_version(label, v),
        ciphers::version_of(label) is Err <==> label != ""@ && forall|w: TlsVersion|
            !#[trigger] names_version(label, w),
{
    labels_differ();
    assert(ciphers::version_of(label) is Err ==> forall|w: TlsVersion|
        !#[trigger] names_version(label, w));
    if label != ""@ && forall|w: TlsVersion| !#[trigger] names_version(label, w) {
        assert(!names_version(label, TlsVersion::Ssl20));
        assert(!names_version(label, TlsVersion::Ssl30));
        assert(!names_version(label, TlsVersion::Tls10));
        assert(!names_version(label, TlsVersion::Tls11));
        assert(!names_version(label, TlsVersion::Tls12));
        assert(!names_version(label, TlsVersion::Tls13));
    }
}

pub(crate) proof fn level_labels(label: Seq<char>, level: Security)
    ensures
        ciphers::security_of(label) == Some(level) <==> names_level(label, level),
        ciphers::security_of(label) is None <==> forall|l: Security|
            !#[trigger] names_level(label, l),
{
    labels_differ();
    if forall|l: Security| !#[trigger] names_level(label, l) {
        assert(!names_level(label, Security::Recommended));
        assert(!names_level(label, Security::Secure));
        assert(!names_level(label, Security::Weak));
        assert(!names_level(label, Security::Insecure));
    }
}

/// A label stands for the version and the level that the service names so. An empty label stands
/// for no version, and any other label for none that exists.
pub proof fn labels_are_read(
    s: &str,
    v: TlsVersion,
    level: Security,
    version: Result<Option<TlsVersion>, CatalogError>,
    security: Result<Security, CatalogError>,
)
    requires
        call_ensures(ciphers::tls_version_variant, (s,), version),
        call_ensures(ciphers::security_variant, (s,), security),
    ensures
        names_version(s@, v) <==> version == Ok::<Option<TlsVersion>, CatalogError>(Some(v)),
        s@ == ""@ <==> version == Ok::<Option<TlsVersion>, CatalogError>(None),
        version is Err ==> version == Err::<Option<TlsVersion>, CatalogError>(
            CatalogError::UnknownVersion,
        ),
        names_level(s@, level) <==> security == Ok::<Security, CatalogError>(level),
        security is Err ==> security == Err::<Security, CatalogError>(
            CatalogError::UnknownSecurity,
        ),
{
    labels_differ();
    version_labels(s@, v);
    level_labels(s@, level);
}

// ---------------------------------------------------------------------------
// SSL 3.0
// ---------------------------------------------------------------------------

/// `c` as an uppercase letter, if it is an ASCII letter.
pub open spec fn raised(c: char) -> char {
    if 'a' <= c <= 'z' {
        (c as int - 32) as char
    } else {
        c
    }
}

/// Whether `piece` stands at place `i` of `t`, in either case.
pub open spec fn stands_at(t: Seq<char>, i: int, piece: Seq<char>) -> bool {
    &&& 0 <= i <= t.len() - piece.len()
    &&& forall|j: int| 0 <= j < piece.len() ==> raised(t[i + j]) == #[trigger] piece[j]
}

/// Whether `piece` stands anywhere in `t`, in either case.
pub open spec fn mentions(t: Seq<char>, piece: Seq<char>) -> bool {
    exists|i: int| #[trigger] stands_at(t, i, piece)
}

/// Whether `t` is `word`, in either case.
pub open spec fn is_word(t: Seq<char>, word: Seq<char>) -> bool {
    t.len() == word.len() && stands_at(t, 0, word)
}

proof fn upper_stands(t: Seq<char>, i: int, piece: Seq<char>)
    requires
        0 <= i <= t.len() - piece.len(),
    ensures
        stands_at(t, i, piece) <==> text::upper(t).subrange(i, i + piece.len()) == piece,
{
    let part = text::upper(t).subrange(i, i + piece.len());
    assert(forall|j: int| 0 <= j < piece.len() ==> part[j] == raised(t[i + j]));
    if stands_at(t, i, piece) {
        assert(part =~= piece);
    }
    if part == piece {
        assert forall|j: int| 0 <= j < piece.len() implies raised(t[i + j])
            == #[trigger] piece[j] by {
            assert(part[j] == piece[j]);
        }
    }
}

proof fn upper_has(t: Seq<char>, piece: Seq<char>)
    ensures
        text::has(text::upper(t), piece) <==> mentions(t, piece),
{
    let u = text::upper(t);
    if text::has(u, piece) {
        let i = choose|i: int|
            0 <= i <= u.len() - piece.len() && #[trigger] u.subrange(i, i + piece.len()) == piece;
        upper_stands(t, i, piece);
        assert(stands_at(t, i, piece));
    }
    if mentions(t, piece) {
        let i = choose|i: int| #[trigger] stands_at(t, i, piece);
        upper_stands(t, i, piece);
        assert(u.subrange(i, i + piece.len()) == piece);
    }
}

proof fn upper_is(t: Seq<char>, word: Seq<char>)
    ensures
        text::upper(t) == word <==> is_word(t, word),
        text::begins(text::upper(t), word) <==> stands_at(t, 0, word),
{
    let u = text::upper(t);
    if t.len() == word.len() {
        upper_stands(t, 0, word);
        assert(u.subrange(0, word.len() as int) =~= u);
    }
    if word.len() <= t.len() {
        upper_stands(t, 0, word);
    }
}

/// Whether a suite works over SSL 3.0: TLS 1.0 knows it, and it needs nothing that came later. What
/// came later are the codes of TLS 1.3, SHA-2 hashes, AEAD ciphers, elliptic curves, and the PSK,
/// KRB5, SRP, GOST and ECCPWD families.
pub open spec fn works_over_ssl3(code: u16, name: Seq<char>, raw: RawSuite) -> bool {
    let hash = raw.hash_algorithm@;
    let enc = raw.enc_algorithm@;
    let kex = raw.kex_algorithm@;
    let auth = raw.auth_algorithm@;
    &&& !(0x1301 <= code <= 0x1305)
    &&& exists|j: int| 0 <= j < raw.tls_version@.len() && (#[trigger] raw.tls_version@[j])@
        == "TLS1.0"@
    &&& !is_word(hash, "SHA256"@) && !is_word(hash, "SHA384"@) && !is_word(hash, "SHA512"@)
    &&& !mentions(enc, "GCM"@) && !mentions(enc, "CCM"@) && !mentions(enc, "POLY1305"@)
    &&& !stands_at(kex, 0, "ECDH"@) && !is_word(kex, "ECCPWD"@)
    &&& !mentions(name, "ECDH_"@) && !mentions(name, "ECDHE_"@) && !mentions(name, "ECCPWD"@)
    &&& !mentions(name, "_PSK"@) && !mentions(kex, "PSK"@) && !mentions(auth, "PSK"@)
    &&& !mentions(name, "KRB5"@) && !mentions(kex, "KRB5"@) && !mentions(auth, "KRB5"@)
    &&& !mentions(name, "_SRP_"@) && !mentions(kex, "SRP"@)
    &&& !mentions(name, "GOST"@) && !mentions(kex, "GOSTR"@)
    &&& !mentions(name, "SHA256_SHA256"@) && !mentions(name, "SHA384_SHA384"@)
}

pub(crate) proof fn capable_suites_work(code: u16, name: String, raw: RawSuite)
    ensures
        ciphers::sslv3_capable(code, ciphers::raw_model(name, raw)) <==> works_over_ssl3(
            code,
            name@,
            raw,
        ),
{
    let n = name@;
    let k = raw.kex_algorithm@;
    let a = raw.auth_algorithm@;
    let e = raw.enc_algorithm@;
    let h = raw.hash_algorithm@;
    let labels = text::texts(raw.tls_version@);
    assert(labels.contains("TLS1.0"@) <==> exists|j: int|
        0 <= j < raw.tls_version@.len() && (#[trigger] raw.tls_version@[j])@ == "TLS1.0"@) by {
        if labels.contains("TLS1.0"@) {
            let j = choose|j: int| 0 <= j < labels.len() && labels[j] == "TLS1.0"@;
            assert(raw.tls_version@[j]@ == "TLS1.0"@);
        }
        if exists|j: int|
            0 <= j < raw.tls_version@.len() && (#[trigger] raw.tls_version@[j])@ == "TLS1.0"@ {
            let j = choose|j: int|
                0 <= j < raw.tls_version@.len() && (#[trigger] raw.tls_version@[j])@ == "TLS1.0"@;
            assert(labels[j] == "TLS1.0"@);
        }
    }
    upper_is(h, "SHA256"@);
    upper_is(h, "SHA384"@);
    upper_is(h, "SHA512"@);
    upper_has(e, "GCM"@);
    upper_has(e, "CCM"@);
    upper_has(e, "POLY1305"@);
    upper_is(k, "ECDH"@);
    upper_is(k, "ECCPWD"@);
    upper_has(n, "ECDH_"@);
    upper_has(n, "ECDHE_"@);
    upper_has(n, "ECCPWD"@);
    upper_has(n, "_PSK"@);
    upper_has(k, "PSK"@);
    upper_has(a, "PSK"@);
    upper_has(n, "KRB5"@);
    upper_has(k, "KRB5"@);
    upper_has(a, "KRB5"@);
    upper_has(n, "_SRP_"@);
    upper_has(k, "SRP"@);
    upper_has(n, "GOST"@);
    upper_has(k, "GOSTR"@);
    upper_has(n, "SHA256_SHA256"@);
    upper_has(n, "SHA384_SHA384"@);
}

/// Whether a suite works over SSL 3.0 is decided by its code, its name and its parts.
pub proof fn later_parts_decide_on_ssl3(code: u16, name: String, raw: RawSuite, r: bool)
    requires
        call_ensures(ciphers::suite_is_sslv3_capable, (code, &name, &raw), r),
    ensures
        r <==> works_over_ssl3(code, name@, raw),
{
    capable_suites_work(code, name, raw);
}

// ---------------------------------------------------------------------------
// Entries
// ---------------------------------------------------------------------------

proof fn named_versions(labels: Seq<Seq<char>>, v: TlsVersion)
    ensures
        ciphers::versions_of(labels).contains(v) <==> exists|j: int|
            0 <= j < labels.len() && names_version(#[trigger] labels[j], v),
    decreases labels.len(),
{
    let all = ciphers::versions_of(labels);
    if labels.len() > 0 {
        let rest = labels.drop_last();
        let before = ciphers::versions_of(rest);
        named_versions(rest, v);
        version_labels(labels.last(), v);
        if before.contains(v) {
            let k = choose|k: int| 0 <= k < before.len() && before[k] == v;
            assert(all[k] == v);
            let j = choose|j: int| 0 <= j < rest.len() && names_version(#[trigger] rest[j], v);
            assert(names_version(labels[j], v));
        }
        if names_version(labels.last(), v) {
            assert(all == before.push(v));
            assert(all[before.len() as int] == v);
            assert(names_version(labels[labels.len() - 1], v));
        }
        if all.contains(v) && !before.contains(v) {
            let k = choose|k: int| 0 <= k < all.len() && all[k] == v;
            if k < before.len() {
                assert(before[k] == v);
            }
            assert(names_version(labels.last(), v));
        }
        if exists|j: int| 0 <= j < labels.len() && names_version(#[trigger] labels[j], v) {
            let j = choose|j: int| 0 <= j < labels.len() && names_version(#[trigger] labels[j], v);
            if j < rest.len() {
                assert(names_version(rest[j], v));
            }
        }
    }
}

/// Whether a suite of the catalog is what the service lists under a name.
pub open spec fn is_listed_so(s: CipherSuite, name: Seq<char>, raw: RawSuite) -> bool {
    &&& ciphers::hex_byte(raw.hex_byte_1@) matches Some(high) && (ciphers::hex_byte(
        raw.hex_byte_2@,
    ) matches Some(low) && s.code == high * 256 + low)
    &&& s.iana_name@ == name
    &&& s.openssl_name@ == raw.openssl_name@
    &&& s.gnutls_name@ == raw.gnutls_name@
    &&& s.protocol_version@ == raw.protocol_version@
    &&& s.kex_algorithm@ == raw.kex_algorithm@
    &&& s.auth_algorithm@ == raw.auth_algorithm@
    &&& s.enc_algorithm@ == raw.enc_algorithm@
    &&& s.hash_algorithm@ == raw.hash_algorithm@
    &&& names_level(raw.security@, s.security)
    &&& forall|v: TlsVersion| #[trigger]
        s.tls_versions@.contains(v) <==> {
            ||| exists|j: int|
                0 <= j < raw.tls_version@.len() && names_version(
                    (#[trigger] raw.tls_version@[j])@,
                    v,
                )
            ||| v == TlsVersion::Ssl30 && works_over_ssl3(s.code, name, raw)
        }
}

proof fn entries_are_listed_so(s: CipherSuite, name: String, raw: RawSuite)
    requires
        ciphers::suite_model(s) == ciphers::listed_entry(ciphers::raw_model(name, raw)),
        ciphers::code_of(ciphers::raw_model(name, raw)) is Some,
        ciphers::security_of(raw.security@) is Some,
    ensures
        is_listed_so(s, name@, raw),
{
    let model = ciphers::raw_model(name, raw);
    level_labels(raw.security@, s.security);
    capable_suites_work(s.code, name, raw);
    let given = ciphers::versions_of(model.tls_version);
    assert forall|v: TlsVersion| #[trigger] s.tls_versions@.contains(v) <==> {
        ||| exists|j: int|
            0 <= j < raw.tls_version@.len() && names_version((#[trigger] raw.tls_version@[j])@, v)
        ||| v == TlsVersion::Ssl30 && works_over_ssl3(s.code, name@, raw)
    } by {
        named_versions(model.tls_version, v);
        ciphers::given_versions_are_kept(model);
        ciphers::ssl3_suites_are_those_that_work(model);
        assert(s.tls_versions@ == ciphers::listed_entry(model).tls_versions);
        if given.contains(v) {
            let k = choose|k: int| 0 <= k < given.len() && given[k] == v;
            assert(s.tls_versions@[k] == v);
            let j = choose|j: int|
                0 <= j < model.tls_version.len() && names_version(
                    #[trigger] model.tls_version[j],
                    v,
                );
            assert(names_version(raw.tls_version@[j]@, v));
        }
        if exists|j: int|
            0 <= j < raw.tls_version@.len() && names_version((#[trigger] raw.tls_version@[j])@, v) {
            let j = choose|j: int|
                0 <= j < raw.tls_version@.len() && names_version(
                    (#[trigger] raw.tls_version@[j])@,
                    v,
                );
            assert(names_version(model.tls_version[j], v));
        }
        if s.tls_versions@.contains(v) && v != TlsVersion::Ssl30 {
            let k = choose|k: int| 0 <= k < s.tls_versions@.len() && s.tls_versions@[k] == v;
            assert(given[k] == v);
        }
    }
}

/// Whether some listed suite has this code.
pub open spec fn is_taken(raws: Seq<(String, RawSuite)>, code: u16) -> bool {
    exists|i: int|
        0 <= i < raws.len() && has_code((#[trigger] raws[i]).1, code)
}

/// Whether the two bytes of a listed suite are those of a code.
pub open spec fn has_code(raw: RawSuite, code: u16) -> bool {
    ciphers::hex_byte(raw.hex_byte_1@) matches Some(high) && (ciphers::hex_byte(
        raw.hex_byte_2@,
    ) matches Some(low) && code == high * 256 + low)
}

/// Whether a suite is a FORTEZZA suite with this code, name and cipher.
pub open spec fn is_fortezza(s: CipherSuite, code: u16, name: Seq<char>, enc: Seq<char>) -> bool {
    &&& s.code == code
    &&& s.iana_name@ == name
    &&& s.enc_algorithm@ == enc
    &&& s.openssl_name@.len() == 0
    &&& s.gnutls_name@.len() == 0
    &&& s.protocol_version@ == "SSL"@
    &&& s.kex_algorithm@ == "KEA"@
    &&& s.auth_algorithm@ == "KEA"@
    &&& s.hash_algorithm@ == "SHA"@
    &&& s.security == Security::Insecure
    &&& s.tls_versions@ == seq![TlsVersion::Ssl30]
}

/// Whether a suite is one of the three FORTEZZA suites.
pub open spec fn is_some_fortezza(s: CipherSuite) -> bool {
    ||| is_fortezza(s, 0x001c, "SSL_FORTEZZA_KEA_WITH_NULL_SHA"@, "NULL"@)
    ||| is_fortezza(s, 0x001d, "SSL_FORTEZZA_KEA_WITH_FORTEZZA_CBC_SHA"@, "FORTEZZA_CBC"@)
    ||| is_fortezza(s, 0x001e, "SSL_FORTEZZA_KEA_WITH_RC4_128_SHA"@, "RC4_128"@)
}

/// Whether a suite is what the service lists somewhere.
pub open spec fn is_listed_somewhere(s: CipherSuite, raws: Seq<(String, RawSuite)>) -> bool {
    exists|i: int| 0 <= i < raws.len() && is_listed_so(s, (#[trigger] raws[i]).0@, raws[i].1)
}

/// Whether a listed suite stands in the catalog.
pub open spec fn stands_in(suites: Seq<CipherSuite>, name: Seq<char>, raw: RawSuite) -> bool {
    exists|k: int| 0 <= k < suites.len() && is_listed_so(#[trigger] suites[k], name, raw)
}

/// Whether a suite with a given code, name and cipher stands in the catalog as a FORTEZZA suite.
pub open spec fn has_fortezza(
    suites: Seq<CipherSuite>,
    code: u16,
    name: Seq<char>,
    enc: Seq<char>,
) -> bool {
    exists|k: int| 0 <= k < suites.len() && is_fortezza(#[trigger] suites[k], code, name, enc)
}

pub(crate) proof fn taken_codes(raws: Seq<(String, RawSuite)>, code: u16)
    ensures
        ciphers::lists_code(ciphers::raw_models(raws), code) <==> is_taken(raws, code),
{
    let models = ciphers::raw_models(raws);
    if ciphers::lists_code(models, code) {
        let i = choose|i: int|
            0 <= i < models.len() && ciphers::code_of(#[trigger] models[i]) == Some(code);
        assert(has_code(raws[i].1, code));
    }
    if is_taken(raws, code) {
        let i = choose|i: int| 0 <= i < raws.len() && has_code((#[trigger] raws[i]).1, code);
        assert(ciphers::code_of(models[i]) == Some(code));
    }
}

proof fn fortezza_stands(
    raws: Seq<(String, RawSuite)>,
    suites: Seq<CipherSuite>,
    f: int,
    code: u16,
    name: Seq<char>,
    enc: Seq<char>,
)
    requires
        ciphers::is_built(ciphers::raw_models(raws), suites),
        0 <= f < 3,
        ciphers::fortezza_entries()[f] == ciphers::fortezza_entry(code, name, enc),
        !is_taken(raws, code),
    ensures
        has_fortezza(suites, code, name, enc),
{
    let models = ciphers::raw_models(raws);
    let m = ciphers::fortezza_entry(code, name, enc);
    taken_codes(raws, code);
    assert(ciphers::fortezza_entries()[f] == m);
    assert(ciphers::fortezza_entries().contains(m));
    assert(ciphers::is_entry(models, m));
    assert(ciphers::holds(suites, m));
    let k = choose|k: int|
        0 <= k < suites.len() && ciphers::suite_model(#[trigger] suites[k]) == m;
    assert(is_fortezza(suites[k], code, name, enc));
}

proof fn each_is_listed(raws: Seq<(String, RawSuite)>, suites: Seq<CipherSuite>, i: int)
    requires
        ciphers::is_built(ciphers::raw_models(raws), suites),
        0 <= i < raws.len(),
    ensures
        stands_in(suites, raws[i].0@, raws[i].1),
{
    let models = ciphers::raw_models(raws);
    let m = ciphers::listed_entry(models[i]);
    assert(models[i] == ciphers::raw_model(raws[i].0, raws[i].1));
    assert(ciphers::code_of(models[i]) is Some);
    assert(ciphers::security_of(models[i].security) is Some);
    assert(ciphers::is_entry(models, m));
    assert(ciphers::holds(suites, m));
    let k = choose|k: int|
        0 <= k < suites.len() && ciphers::suite_model(#[trigger] suites[k]) == m;
    entries_are_listed_so(suites[k], raws[i].0, raws[i].1);
    assert(is_listed_so(suites[k], raws[i].0@, raws[i].1));
}

proof fn nothing_else_stands(raws: Seq<(String, RawSuite)>, suites: Seq<CipherSuite>, k: int)
    requires
        ciphers::is_built(ciphers::raw_models(raws), suites),
        0 <= k < suites.len(),
    ensures
        is_listed_somewhere(suites[k], raws) || is_some_fortezza(suites[k]) && !is_taken(
            raws,
            suites[k].code,
        ),
{
    let models = ciphers::raw_models(raws);
    let m = ciphers::suite_model(suites[k]);
    assert(ciphers::holds(suites, m));
    assert(ciphers::is_entry(models, m));
    if exists|i: int| 0 <= i < models.len() && m == ciphers::listed_entry(#[trigger] models[i]) {
        let i = choose|i: int|
            0 <= i < models.len() && m == ciphers::listed_entry(#[trigger] models[i]);
        assert(models[i] == ciphers::raw_model(raws[i].0, raws[i].1));
        assert(ciphers::code_of(models[i]) is Some);
        assert(ciphers::security_of(models[i].security) is Some);
        entries_are_listed_so(suites[k], raws[i].0, raws[i].1);
        assert(is_listed_so(suites[k], raws[i].0@, raws[i].1));
    } else {
        taken_codes(raws, suites[k].code);
        let all = ciphers::fortezza_entries();
        assert(all.len() == 3);
        let f = choose|f: int| 0 <= f < all.len() && all[f] == m;
        assert(f == 0 || f == 1 || f == 2);
    }
}

/// A catalog that is made holds every listed suite, as it is listed, the FORTEZZA suites whose
/// codes are free, and nothing else, in the order of their codes.
pub proof fn catalogs_hold_what_is_listed(
    raws: Vec<(String, RawSuite)>,
    catalog: Catalog,
    suites: &Vec<CipherSuite>,
)
    requires
        call_ensures(ciphers::build, (raws,), Ok::<Catalog, CatalogError>(catalog)),
        call_ensures(Catalog::suites, (&catalog,), suites),
    ensures
        forall|i: int|
            0 <= i < raws@.len() ==> stands_in(
                suites@,
                (#[trigger] raws@[i]).0@,
                raws@[i].1,
            ),
        forall|k: int|
            0 <= k < suites@.len() ==> is_listed_somewhere(#[trigger] suites@[k], raws@)
                || is_some_fortezza(suites@[k]) && !is_taken(raws@, suites@[k].code),
        !is_taken(raws@, 0x001c) ==> has_fortezza(
            suites@,
            0x001c,
            "SSL_FORTEZZA_KEA_WITH_NULL_SHA"@,
            "NULL"@,
        ),
        !is_taken(raws@, 0x001d) ==> has_fortezza(
            suites@,
            0x001d,
            "SSL_FORTEZZA_KEA_WITH_FORTEZZA_CBC_SHA"@,
            "FORTEZZA_CBC"@,
        ),
        !is_taken(raws@, 0x001e) ==> has_fortezza(
            suites@,
            0x001e,
            "SSL_FORTEZZA_KEA_WITH_RC4_128_SHA"@,
            "RC4_128"@,
        ),
        forall|k: int, l: int|
            0 <= k < l < suites@.len() ==> (#[trigger] suites@[k]).code < (
            #[trigger] suites@[l]).code,
{
    assert forall|i: int| 0 <= i < raws@.len() implies stands_in(
        suites@,
        (#[trigger] raws@[i]).0@,
        raws@[i].1,
    ) by {
        each_is_listed(raws@, suites@, i);
    }
    assert forall|k: int| 0 <= k < suites@.len() implies is_listed_somewhere(
        #[trigger] suites@[k],
        raws@,
    ) || is_some_fortezza(suites@[k]) && !is_taken(raws@, suites@[k].code) by {
        nothing_else_stands(raws@, suites@, k);
    }
    if !is_taken(raws@, 0x001c) {
        fortezza_stands(
            raws@,
            suites@,
            0,
            0x001c,
            "SSL_FORTEZZA_KEA_WITH_NULL_SHA"@,
            "NULL"@,
        );
    }
    if !is_taken(raws@, 0x001d) {
        fortezza_stands(
            raws@,
            suites@,
            1,
            0x001d,
            "SSL_FORTEZZA_KEA_WITH_FORTEZZA_CBC_SHA"@,
            "FORTEZZA_CBC"@,
        );
    }
    if !is_taken(raws@, 0x001e) {
        fortezza_stands(
            raws@,
            suites@,
            2,
            0x001e,
            "SSL_FORTEZZA_KEA_WITH_RC4_128_SHA"@,
            "RC4_128"@,
        );
    }
}

// ---------------------------------------------------------------------------
// Lists that make no catalog
// ---------------------------------------------------------------------------

/// Whether a listed suite can be read: its bytes, its level and its version labels.
pub open spec fn is_readable(raw: RawSuite) -> bool {
    &&& ciphers::hex_byte(raw.hex_byte_1@) is Some
    &&& ciphers::hex_byte(raw.hex_byte_2@) is Some
    &&& exists|l: Security| #[trigger] names_level(raw.security@, l)
    &&& forall|j: int|
        0 <= j < raw.tls_version@.len() ==> is_version_label((#[trigger] raw.tls_version@[j])@)
}

/// Whether a label is empty or names a version.
pub open spec fn is_version_label(label: Seq<char>) -> bool {
    label == ""@ || exists|v: TlsVersion| #[trigger] names_version(label, v)
}

pub(crate) proof fn unknown_versions(raw: RawSuite)
    ensures
        ciphers::has_unknown_version(text::texts(raw.tls_version@)) <==> !(forall|j: int|
            0 <= j < raw.tls_version@.len() ==> is_version_label(
                (#[trigger] raw.tls_version@[j])@,
            )),
{
    let labels = text::texts(raw.tls_version@);
    if ciphers::has_unknown_version(labels) {
        let j = choose|j: int|
            0 <= j < labels.len() && ciphers::version_of(#[trigger] labels[j]) is Err;
        version_labels(labels[j], TlsVersion::Tls10);
        assert(!is_version_label(raw.tls_version@[j]@));
    }
    if !(forall|j: int|
        0 <= j < raw.tls_version@.len() ==> is_version_label((#[trigger] raw.tls_version@[j])@)) {
        let j = choose|j: int|
            0 <= j < raw.tls_version@.len() && !is_version_label(
                (#[trigger] raw.tls_version@[j])@,
            );
        version_labels(labels[j], TlsVersion::Tls10);
        assert(labels[j] == raw.tls_version@[j]@);
        assert(ciphers::version_of(labels[j]) is Err);
    }
}

/// A list is refused only with cause: a byte that cannot be read, an empty list, a label or a level
/// that names nothing, or two suites with one code. And with such cause it is refused.
pub proof fn lists_are_refused_with_cause(
    raws: Vec<(String, RawSuite)>,
    r: Result<Catalog, CatalogError>,
)
    requires
        call_ensures(ciphers::build, (raws,), r),
    ensures
        raws@.len() == 0 ==> r == Err::<Catalog, CatalogError>(CatalogError::Empty),
        r is Ok ==> forall|i: int| 0 <= i < raws@.len() ==> is_readable((#[trigger] raws@[i]).1),
        r is Ok ==> forall|i: int, j: int, code: u16|
            0 <= i < j < raws@.len() && #[trigger] has_code(raws@[i].1, code)
                ==> !#[trigger] has_code(raws@[j].1, code),
        r matches Err(e) ==> match e {
            CatalogError::BadHexByte => exists|i: int|
                0 <= i < raws@.len() && (ciphers::hex_byte(
                    (#[trigger] raws@[i]).1.hex_byte_1@,
                ) is None || ciphers::hex_byte(raws@[i].1.hex_byte_2@) is None),
            CatalogError::Empty => raws@.len() == 0,
            CatalogError::UnknownVersion | CatalogError::UnknownSecurity => exists|i: int|
                0 <= i < raws@.len() && !is_readable((#[trigger] raws@[i]).1),
            CatalogError::DuplicateCode => exists|i: int, j: int|
                0 <= i < j < raws@.len() && same_code(
                    (#[trigger] raws@[i]).1,
                    (#[trigger] raws@[j]).1,
                ),
            CatalogError::DuplicateName => raws@.len() > 0 && forall|i: int|
                0 <= i < raws@.len() ==> is_readable((#[trigger] raws@[i]).1),
        },
{
    let models = ciphers::raw_models(raws@);
    assert forall|i: int| 0 <= i < raws@.len() implies {
        &&& #[trigger] models[i] == ciphers::raw_model(raws@[i].0, raws@[i].1)
        &&& is_readable(raws@[i].1) <==> {
            &&& ciphers::code_of(models[i]) is Some
            &&& ciphers::security_of(models[i].security) is Some
            &&& !ciphers::has_unknown_version(models[i].tls_version)
        }
    } by {
        level_labels(raws@[i].1.security@, Security::Weak);
        unknown_versions(raws@[i].1);
    }
    if r is Ok {
        assert(ciphers::build_error(models) is None);
        assert forall|i: int| 0 <= i < raws@.len() implies is_readable((#[trigger] raws@[i]).1) by {
            assert(ciphers::code_of(models[i]) is Some);
            assert(!ciphers::has_unknown_version(models[i].tls_version));
            assert(ciphers::security_of(models[i].security) is Some);
        }
        assert forall|i: int, j: int, code: u16|
            0 <= i < j < raws@.len() && #[trigger] has_code(
                raws@[i].1,
                code,
            ) implies !#[trigger] has_code(raws@[j].1, code) by {
            if has_code(raws@[j].1, code) {
                assert(ciphers::code_of(models[i]) == ciphers::code_of(models[j]));
            }
        }
    }
    if let Err(e) = r {
        assert(ciphers::build_error(models) == Some(e));
        match e {
            CatalogError::BadHexByte => {
                let i = choose|i: int|
                    0 <= i < models.len() && ciphers::code_of(#[trigger] models[i]) is None;
                assert(ciphers::hex_byte(raws@[i].1.hex_byte_1@) is None || ciphers::hex_byte(
                    raws@[i].1.hex_byte_2@,
                ) is None);
            },
            CatalogError::Empty => {},
            CatalogError::UnknownVersion => {
                let i = choose|i: int|
                    0 <= i < models.len() && ciphers::has_unknown_version(
                        (#[trigger] models[i]).tls_version,
                    );
                assert(!is_readable(raws@[i].1));
            },
            CatalogError::UnknownSecurity => {
                let i = choose|i: int|
                    0 <= i < models.len() && ciphers::security_of(
                        (#[trigger] models[i]).security,
                    ) is None;
                assert(!is_readable(raws@[i].1));
            },
            CatalogError::DuplicateCode => {
                let (i, j) = choose|i: int, j: int|
                    0 <= i < j < models.len() && ciphers::code_of(#[trigger] models[i])
                        == ciphers::code_of(#[trigger] models[j]);
                assert(ciphers::code_of(models[i]) is Some);
                let code = ciphers::code_of(models[i])->0;
                assert(has_code(raws@[i].1, code) && has_code(raws@[j].1, code));
                assert(same_code(raws@[i].1, raws@[j].1));
            },
            CatalogError::DuplicateName => {
                assert forall|i: int| 0 <= i < raws@.len() implies is_readable(
                    (#[trigger] raws@[i]).1,
                ) by {
                    assert(ciphers::code_of(models[i]) is Some);
                    assert(!ciphers::has_unknown_version(models[i].tls_version));
                    assert(ciphers::security_of(models[i].security) is Some);
                }
            },
        }
    }
}

/// Whether a name is that of a FORTEZZA suite.
pub open spec fn is_fortezza_name(name: Seq<char>) -> bool {
    ||| name == "SSL_FORTEZZA_KEA_WITH_NULL_SHA"@
    ||| name == "SSL_FORTEZZA_KEA_WITH_FORTEZZA_CBC_SHA"@
    ||| name == "SSL_FORTEZZA_KEA_WITH_RC4_128_SHA"@
}

pub(crate) proof fn entry_source(raws: Seq<(String, RawSuite)>, m: SuiteModel)
    requires
        ciphers::is_entry(ciphers::raw_models(raws), m),
    ensures
        is_fortezza_name(m.iana_name) || exists|i: int|
            0 <= i < raws.len() && m == ciphers::listed_entry(
                #[trigger] ciphers::raw_models(raws)[i],
            ) && raws[i].0@ == m.iana_name,
{
    let models = ciphers::raw_models(raws);
    if exists|i: int| 0 <= i < models.len() && m == ciphers::listed_entry(#[trigger] models[i]) {
        let i = choose|i: int|
            0 <= i < models.len() && m == ciphers::listed_entry(#[trigger] models[i]);
        assert(raws[i].0@ == m.iana_name);
    } else {
        assert(ciphers::fortezza_entries().len() == 3);
    }
}

/// A catalog has each name once: no two listed suites share one. And a list is refused for a name
/// only if two of its suites share one, or one of them has the name of a FORTEZZA suite.
pub proof fn names_are_unique(raws: Vec<(String, RawSuite)>, r: Result<Catalog, CatalogError>)
    requires
        call_ensures(ciphers::build, (raws,), r),
    ensures
        r is Ok ==> forall|i: int, j: int|
            0 <= i < j < raws@.len() ==> (#[trigger] raws@[i]).0@ != (#[trigger] raws@[j]).0@,
        r == Err::<Catalog, CatalogError>(CatalogError::DuplicateName) ==> {
            ||| exists|i: int, j: int|
                0 <= i < raws@.len() && 0 <= j < raws@.len() && i != j && (
                #[trigger] raws@[i]).0@ == (#[trigger] raws@[j]).0@
            ||| exists|i: int| 0 <= i < raws@.len() && is_fortezza_name((#[trigger] raws@[i]).0@)
        },
{
    let models = ciphers::raw_models(raws@);
    if r is Ok {
        assert(ciphers::build_error(models) is None);
        assert forall|i: int, j: int| 0 <= i < j < raws@.len() implies (#[trigger] raws@[i]).0@ != (
        #[trigger] raws@[j]).0@ by {
            let m = ciphers::listed_entry(models[i]);
            let n = ciphers::listed_entry(models[j]);
            assert(ciphers::is_entry(models, m) && ciphers::is_entry(models, n));
            assert(ciphers::code_of(models[i]) is Some && ciphers::code_of(models[j]) is Some);
            assert(ciphers::code_of(models[i]) != ciphers::code_of(models[j]));
            assert(m.code != n.code);
        }
    }
    if r == Err::<Catalog, CatalogError>(CatalogError::DuplicateName) {
        let (m, n) = choose|m: SuiteModel, n: SuiteModel|
            #[trigger] ciphers::is_entry(models, m) && #[trigger] ciphers::is_entry(models, n)
                && m.code != n.code && m.iana_name == n.iana_name;
        entry_source(raws@, m);
        entry_source(raws@, n);
        names_of_fortezza(raws@, m, n);
    }
}

proof fn names_of_fortezza(raws: Seq<(String, RawSuite)>, m: SuiteModel, n: SuiteModel)
    requires
        ciphers::is_entry(ciphers::raw_models(raws), m),
        ciphers::is_entry(ciphers::raw_models(raws), n),
        m.code != n.code,
        m.iana_name == n.iana_name,
    ensures
        ({
            ||| exists|i: int, j: int|
                0 <= i < raws.len() && 0 <= j < raws.len() && i != j && (
                #[trigger] raws[i]).0@ == (#[trigger] raws[j]).0@
            ||| exists|i: int| 0 <= i < raws.len() && is_fortezza_name((#[trigger] raws[i]).0@)
        }),
{
    let models = ciphers::raw_models(raws);
    let listed = |e: SuiteModel| exists|i: int|
        0 <= i < models.len() && e == ciphers::listed_entry(#[trigger] models[i]);
    entry_source(raws, m);
    entry_source(raws, n);
    if listed(m) && listed(n) {
        let i = choose|i: int|
            0 <= i < models.len() && m == ciphers::listed_entry(#[trigger] models[i]);
        let j = choose|j: int|
            0 <= j < models.len() && n == ciphers::listed_entry(#[trigger] models[j]);
        assert(i != j);
        assert(raws[i].0@ == raws[j].0@);
    } else if listed(m) {
        let i = choose|i: int|
            0 <= i < models.len() && m == ciphers::listed_entry(#[trigger] models[i]);
        assert(ciphers::fortezza_entries().len() == 3);
        assert(is_fortezza_name(raws[i].0@));
    } else if listed(n) {
        let j = choose|j: int|
            0 <= j < models.len() && n == ciphers::listed_entry(#[trigger] models[j]);
        assert(ciphers::fortezza_entries().len() == 3);
        assert(is_fortezza_name(raws[j].0@));
    } else {
        fortezza_names_differ();
        let all = ciphers::fortezza_entries();
        assert(all.len() == 3);
        let f = choose|f: int| 0 <= f < all.len() && all[f] == m;
        let g = choose|g: int| 0 <= g < all.len() && all[g] == n;
        assert(f == 0 || f == 1 || f == 2);
        assert(g == 0 || g == 1 || g == 2);
    }
}

pub(crate) proof fn fortezza_names_differ()
    ensures
        "SSL_FORTEZZA_KEA_WITH_NULL_SHA"@.len() == 30,
        "SSL_FORTEZZA_KEA_WITH_FORTEZZA_CBC_SHA"@.len() == 38,
        "SSL_FORTEZZA_KEA_WITH_RC4_128_SHA"@.len() == 33,
{
    reveal_strlit("SSL_FORTEZZA_KEA_WITH_NULL_SHA");
    reveal_strlit("SSL_FORTEZZA_KEA_WITH_FORTEZZA_CBC_SHA");
    reveal_strlit("SSL_FORTEZZA_KEA_WITH_RC4_128_SHA");
}

/// Whether two listed suites have the same code.
pub open spec fn same_code(a: RawSuite, b: RawSuite) -> bool {
    exists|code: u16| #[trigger] has_code(a, code) && has_code(b, code)
}

} // verus!
