//! Makes the catalog from the suites that the ciphersuite.info service lists.
//!
//! The service says nothing of SSL 3.0, so which suites work over it is worked out here. The SSL
//! 3.0 record layer carries every suite of TLS 1.0 whose parts do not need what came later. So a
//! suite of TLS 1.0 counts as one of SSL 3.0 unless it
//!
//! 1. uses an AEAD cipher, for which SSL 3.0 has no record layer,
//! 2. uses a SHA-2 hash, which came with TLS 1.2,
//! 3. exchanges keys over elliptic curves, which takes TLS extensions,
//! 4. belongs to TLS 1.3, or
//! 5. belongs to the PSK, SRP, KRB5, GOST or ECCPWD families, which no SSL 3.0 stack offers.
//!
//! The service leaves out the FORTEZZA suites of SSL 3.0 (RFC 6101, appendix A.6). They are added,
//! each unless the service lists another suite under its code.

use vstd::prelude::*;

use crate::text;
use crate::tls::cipher_suite;
use crate::tls::cipher_suite::{Catalog, CipherSuite, Security};
use crate::tls::TlsVersion;

verus! {

/// A suite as the service describes it.
pub struct RawSuite {
    pub gnutls_name: String,
    pub openssl_name: String,
    pub hex_byte_1: String,
    pub hex_byte_2: String,
    pub protocol_version: String,
    pub kex_algorithm: String,
    pub auth_algorithm: String,
    pub enc_algorithm: String,
    pub hash_algorithm: String,
    pub security: String,
    pub tls_version: Vec<String>,
}

/// The texts of a suite as the service describes it, under its name.
#[verifier::ext_equal]
pub struct RawModel {
    pub name: Seq<char>,
    pub gnutls_name: Seq<char>,
    pub openssl_name: Seq<char>,
    pub hex_byte_1: Seq<char>,
    pub hex_byte_2: Seq<char>,
    pub protocol_version: Seq<char>,
    pub kex_algorithm: Seq<char>,
    pub auth_algorithm: Seq<char>,
    pub enc_algorithm: Seq<char>,
    pub hash_algorithm: Seq<char>,
    pub security: Seq<char>,
    pub tls_version: Seq<Seq<char>>,
}

/// The texts and values of a catalog entry.
#[verifier::ext_equal]
pub struct SuiteModel {
    pub code: u16,
    pub iana_name: Seq<char>,
    pub openssl_name: Seq<char>,
    pub gnutls_name: Seq<char>,
    pub protocol_version: Seq<char>,
    pub kex_algorithm: Seq<char>,
    pub auth_algorithm: Seq<char>,
    pub enc_algorithm: Seq<char>,
    pub hash_algorithm: Seq<char>,
    pub security: Security,
    pub tls_versions: Seq<TlsVersion>,
}

/// Why a list of suites makes no catalog.
#[derive(Debug, Clone, Copy, PartialEq, Eq, Structural)]
pub enum CatalogError {
    /// A byte of some code is not a hexadecimal number below 256.
    BadHexByte,
    /// No suite is listed.
    Empty,
    /// Some suite names a protocol version that does not exist.
    UnknownVersion,
    /// Some suite has a security level that does not exist.
    UnknownSecurity,
    /// Two suites have the same code.
    DuplicateCode,
    /// Two suites have the same name.
    DuplicateName,
}

/// The texts of the suite `raw`, under the name `name`.
pub open spec fn raw_model(name: String, raw: RawSuite) -> RawModel {
    RawModel {
        name: name@,
        gnutls_name: raw.gnutls_name@,
        openssl_name: raw.openssl_name@,
        hex_byte_1: raw.hex_byte_1@,
        hex_byte_2: raw.hex_byte_2@,
        protocol_version: raw.protocol_version@,
        kex_algorithm: raw.kex_algorithm@,
        auth_algorithm: raw.auth_algorithm@,
        enc_algorithm: raw.enc_algorithm@,
        hash_algorithm: raw.hash_algorithm@,
        security: raw.security@,
        tls_version: text::texts(raw.tls_version@),
    }
}

/// The texts of all suites.
pub open spec fn raw_models(raws: Seq<(String, RawSuite)>) -> Seq<RawModel> {
    raws.map_values(|r: (String, RawSuite)| raw_model(r.0, r.1))
}

/// The texts and values of a suite.
pub open spec fn suite_model(s: CipherSuite) -> SuiteModel {
    SuiteModel {
        code: s.code,
        iana_name: s.iana_name@,
        openssl_name: s.openssl_name@,
        gnutls_name: s.gnutls_name@,
        protocol_version: s.protocol_version@,
        kex_algorithm: s.kex_algorithm@,
        auth_algorithm: s.auth_algorithm@,
        enc_algorithm: s.enc_algorithm@,
        hash_algorithm: s.hash_algorithm@,
        security: s.security,
        tls_versions: s.tls_versions@,
    }
}

// ---------------------------------------------------------------------------
// Codes
// ---------------------------------------------------------------------------

/// `s` without the pairs of `0` and `x` at its start.
pub open spec fn strip_prefix(s: Seq<char>, x: char) -> Seq<char>
    decreases s.len(),
{
    if s.len() >= 2 && s[0] == '0' && s[1] == x {
        strip_prefix(s.skip(2), x)
    } else {
        s
    }
}

/// The value of a hexadecimal digit, in either case.
pub open spec fn digit_value(c: char) -> Option<int> {
    if '0' <= c <= '9' {
        Some(c as int - '0' as int)
    } else if 'a' <= c <= 'f' {
        Some(c as int - 'a' as int + 10)
    } else if 'A' <= c <= 'F' {
        Some(c as int - 'A' as int + 10)
    } else {
        None
    }
}

/// Whether all characters are hexadecimal digits.
pub open spec fn all_digits(s: Seq<char>) -> bool {
    forall|i: int| 0 <= i < s.len() ==> digit_value(#[trigger] s[i]) is Some
}

/// The number that hexadecimal digits stand for.
pub open spec fn hex_number(s: Seq<char>) -> int
    decreases s.len(),
{
    if s.len() == 0 {
        0
    } else {
        hex_number(s.drop_last()) * 16 + digit_value(s.last())->0
    }
}

/// The byte that `s` stands for: hexadecimal digits, behind a plus sign or none, of a value below
/// 256. The digits may follow `0x` or `0X`.
pub open spec fn hex_byte(s: Seq<char>) -> Option<u8> {
    let t = strip_prefix(strip_prefix(s, 'x'), 'X');
    let digits = if t.len() > 0 && t[0] == '+' {
        t.skip(1)
    } else {
        t
    };
    if digits.len() > 0 && all_digits(digits) && hex_number(digits) < 256 {
        Some(hex_number(digits) as u8)
    } else {
        None
    }
}

/// The code of a suite, from its two bytes.
pub open spec fn code_of(raw: RawModel) -> Option<u16> {
    match (hex_byte(raw.hex_byte_1), hex_byte(raw.hex_byte_2)) {
        (Some(high), Some(low)) => Some((high * 256 + low) as u16),
        _ => None,
    }
}

fn without_prefix(chars: Vec<char>, x: char) -> (r: Vec<char>)
    ensures
        r@ == strip_prefix(chars@, x),
{
    let mut at: usize = 0;
    assert(chars@.skip(0) =~= chars@);
    while chars.len() - at >= 2 && chars[at] == '0' && chars[at + 1] == x
        invariant
            at <= chars@.len(),
            strip_prefix(chars@, x) == strip_prefix(chars@.skip(at as int), x),
        decreases chars@.len() - at,
    {
        assert(chars@.skip(at as int).skip(2) =~= chars@.skip(at + 2));
        at = at + 2;
    }
    let mut r: Vec<char> = Vec::new();
    let mut i: usize = at;
    while i < chars.len()
        invariant
            at <= i <= chars@.len(),
            r@ == chars@.subrange(at as int, i as int),
        decreases chars@.len() - i,
    {
        r.push(chars[i]);
        i = i + 1;
        assert(r@ =~= chars@.subrange(at as int, i as int));
    }
    assert(r@ =~= chars@.skip(at as int));
    r
}

fn hex_digit_value(c: char) -> (v: Option<u8>)
    ensures
        match v {
            Some(n) => digit_value(c) == Some(n as int) && n < 16,
            None => digit_value(c) is None,
        },
{
    if '0' <= c && c <= '9' {
        Some(c as u8 - '0' as u8)
    } else if 'a' <= c && c <= 'f' {
        Some(c as u8 - 'a' as u8 + 10)
    } else if 'A' <= c && c <= 'F' {
        Some(c as u8 - 'A' as u8 + 10)
    } else {
        None
    }
}

proof fn hex_number_grows(s: Seq<char>, k: int)
    requires
        0 <= k <= s.len(),
        all_digits(s),
    ensures
        0 <= hex_number(s.take(k)) <= hex_number(s),
    decreases s.len(),
{
    if s.len() > 0 {
        let before = s.drop_last();
        assert forall|i: int| 0 <= i < before.len() implies digit_value(
            #[trigger] before[i],
        ) is Some by {
            assert(before[i] == s[i]);
        }
        assert(digit_value(s[s.len() - 1]) is Some);
        if k < s.len() {
            assert(before.take(k) =~= s.take(k));
            hex_number_grows(before, k);
        } else {
            assert(s.take(k) =~= s);
            hex_number_grows(before, before.len() as int);
            assert(before.take(before.len() as int) =~= before);
        }
    }
}

/// Reads a byte in hexadecimal.
pub fn parse_hex_byte(s: &str) -> (r: Option<u8>)
    ensures
        r == hex_byte(s@),
{
    let t = without_prefix(without_prefix(text::chars_of(s), 'x'), 'X');
    let start: usize = if t.len() > 0 && t[0] == '+' {
        1
    } else {
        0
    };
    let ghost digits = t@.skip(start as int);
    assert(start == 0 ==> digits =~= t@);
    if t.len() == start {
        return None;
    }
    let mut value: u32 = 0;
    let mut i: usize = start;
    assert(digits.take(0) =~= seq![]);
    while i < t.len()
        invariant
            start <= i <= t@.len(),
            digits == t@.skip(start as int),
            hex_byte(s@) == if digits.len() > 0 && all_digits(digits) && hex_number(digits) < 256 {
                Some(hex_number(digits) as u8)
            } else {
                None
            },
            all_digits(digits.take(i - start)),
            value == hex_number(digits.take(i - start)),
            value < 256,
        decreases t@.len() - i,
    {
        let ghost k = i - start;
        assert(digits[k] == t@[i as int]);
        match hex_digit_value(t[i]) {
            None => {
                return None;
            },
            Some(d) => {
                value = value * 16 + d as u32;
            },
        }
        proof {
            let more = digits.take(k + 1);
            assert(more.drop_last() =~= digits.take(k));
            assert forall|j: int| 0 <= j < more.len() implies digit_value(
                #[trigger] more[j],
            ) is Some by {
                if j < k {
                    assert(digits.take(k)[j] == more[j]);
                }
            }
            if all_digits(digits) {
                hex_number_grows(digits, k + 1);
            }
        }
        if value >= 256 {
            return None;
        }
        i = i + 1;
    }
    assert(digits.take(i - start) =~= digits);
    Some(value as u8)
}

// ---------------------------------------------------------------------------
// Labels
// ---------------------------------------------------------------------------

/// The security level that the service names so.
pub open spec fn security_of(label: Seq<char>) -> Option<Security> {
    if label == "recommended"@ {
        Some(Security::Recommended)
    } else if label == "secure"@ {
        Some(Security::Secure)
    } else if label == "weak"@ {
        Some(Security::Weak)
    } else if label == "insecure"@ {
        Some(Security::Insecure)
    } else {
        None
    }
}

/// The version that the service names so; an empty label names none.
pub open spec fn version_of(label: Seq<char>) -> Result<Option<TlsVersion>, CatalogError> {
    if label == "SSL2.0"@ || label == "SSL2"@ {
        Ok(Some(TlsVersion::Ssl20))
    } else if label == "SSL3.0"@ || label == "SSL3"@ {
        Ok(Some(TlsVersion::Ssl30))
    } else if label == "TLS1.0"@ {
        Ok(Some(TlsVersion::Tls10))
    } else if label == "TLS1.1"@ {
        Ok(Some(TlsVersion::Tls11))
    } else if label == "TLS1.2"@ {
        Ok(Some(TlsVersion::Tls12))
    } else if label == "TLS1.3"@ {
        Ok(Some(TlsVersion::Tls13))
    } else if label == ""@ {
        Ok(None)
    } else {
        Err(CatalogError::UnknownVersion)
    }
}

/// Returns the security level that the service names so.
pub fn security_variant(s: &str) -> (r: Result<Security, CatalogError>)
    ensures
        match r {
            Ok(level) => security_of(s@) == Some(level),
            Err(e) => security_of(s@) is None && e == CatalogError::UnknownSecurity,
        },
{
    if text::same(s, "recommended") {
        Ok(Security::Recommended)
    } else if text::same(s, "secure") {
        Ok(Security::Secure)
    } else if text::same(s, "weak") {
        Ok(Security::Weak)
    } else if text::same(s, "insecure") {
        Ok(Security::Insecure)
    } else {
        Err(CatalogError::UnknownSecurity)
    }
}

/// Returns the version that the service names so; an empty label names none.
pub fn tls_version_variant(s: &str) -> (r: Result<Option<TlsVersion>, CatalogError>)
    ensures
        r == version_of(s@),
{
    if text::same(s, "SSL2.0") || text::same(s, "SSL2") {
        Ok(Some(TlsVersion::Ssl20))
    } else if text::same(s, "SSL3.0") || text::same(s, "SSL3") {
        Ok(Some(TlsVersion::Ssl30))
    } else if text::same(s, "TLS1.0") {
        Ok(Some(TlsVersion::Tls10))
    } else if text::same(s, "TLS1.1") {
        Ok(Some(TlsVersion::Tls11))
    } else if text::same(s, "TLS1.2") {
        Ok(Some(TlsVersion::Tls12))
    } else if text::same(s, "TLS1.3") {
        Ok(Some(TlsVersion::Tls13))
    } else if text::same(s, "") {
        Ok(None)
    } else {
        Err(CatalogError::UnknownVersion)
    }
}

// ---------------------------------------------------------------------------
// SSL 3.0
// ---------------------------------------------------------------------------

/// Whether the hash is one that came with TLS 1.2.
pub open spec fn sha2_hash(hash: Seq<char>) -> bool {
    let h = text::upper(hash);
    h == "SHA256"@ || h == "SHA384"@ || h == "SHA512"@
}

/// Whether the cipher is an AEAD cipher.
pub open spec fn aead(enc: Seq<char>) -> bool {
    let e = text::upper(enc);
    text::has(e, "GCM"@) || text::has(e, "CCM"@) || text::has(e, "POLY1305"@)
}

/// Whether the key exchange takes extensions: elliptic curves, by algorithm or by name.
pub open spec fn extension_kex(kex: Seq<char>, name: Seq<char>) -> bool {
    let k = text::upper(kex);
    let n = text::upper(name);
    ||| text::begins(k, "ECDH"@)
    ||| k == "ECCPWD"@
    ||| text::has(n, "ECDH_"@)
    ||| text::has(n, "ECDHE_"@)
    ||| text::has(n, "ECCPWD"@)
}

/// Whether the code is one of those that TLS 1.3 has for itself.
pub open spec fn tls13_code(code: u16) -> bool {
    0x1301 <= code <= 0x1305
}

/// Whether the suite belongs to a family that no SSL 3.0 stack offers.
pub open spec fn later_family(name: Seq<char>, kex: Seq<char>, auth: Seq<char>) -> bool {
    let n = text::upper(name);
    let k = text::upper(kex);
    let a = text::upper(auth);
    ||| text::has(n, "_PSK"@)
    ||| text::has(k, "PSK"@)
    ||| text::has(a, "PSK"@)
    ||| text::has(n, "KRB5"@)
    ||| text::has(k, "KRB5"@)
    ||| text::has(a, "KRB5"@)
    ||| text::has(n, "_SRP_"@)
    ||| text::has(k, "SRP"@)
    ||| text::has(n, "GOST"@)
    ||| text::has(k, "GOSTR"@)
    ||| text::has(n, "ECCPWD"@)
    ||| text::has(n, "SHA256_SHA256"@)
    ||| text::has(n, "SHA384_SHA384"@)
}

/// Whether the suite works over SSL 3.0.
pub open spec fn sslv3_capable(code: u16, raw: RawModel) -> bool {
    &&& !tls13_code(code)
    &&& raw.tls_version.contains("TLS1.0"@)
    &&& !sha2_hash(raw.hash_algorithm)
    &&& !aead(raw.enc_algorithm)
    &&& !extension_kex(raw.kex_algorithm, raw.name)
    &&& !later_family(raw.name, raw.kex_algorithm, raw.auth_algorithm)
}

fn hash_is_tls12_only(hash: &str) -> (r: bool)
    ensures
        r == sha2_hash(hash@),
{
    let h = text::ascii_uppercase(hash);
    text::same(h.as_str(), "SHA256") || text::same(h.as_str(), "SHA384") || text::same(
        h.as_str(),
        "SHA512",
    )
}

fn enc_is_aead(enc: &str) -> (r: bool)
    ensures
        r == aead(enc@),
{
    let e = text::ascii_uppercase(enc);
    text::contains(e.as_str(), "GCM") || text::contains(e.as_str(), "CCM") || text::contains(
        e.as_str(),
        "POLY1305",
    )
}

fn kex_requires_extensions(kex: &str, name: &str) -> (r: bool)
    ensures
        r == extension_kex(kex@, name@),
{
    let k = text::ascii_uppercase(kex);
    if text::starts_with(k.as_str(), "ECDH") || text::same(k.as_str(), "ECCPWD") {
        return true;
    }
    let n = text::ascii_uppercase(name);
    text::contains(n.as_str(), "ECDH_") || text::contains(n.as_str(), "ECDHE_") || text::contains(
        n.as_str(),
        "ECCPWD",
    )
}

fn is_tls13_only_code(code: u16) -> (r: bool)
    ensures
        r == tls13_code(code),
{
    0x1301 <= code && code <= 0x1305
}

fn name_is_post_sslv3_only(name: &str, kex: &str, auth: &str) -> (r: bool)
    ensures
        r == later_family(name@, kex@, auth@),
{
    let n = text::ascii_uppercase(name);
    let k = text::ascii_uppercase(kex);
    let a = text::ascii_uppercase(auth);
    let psk = text::contains(n.as_str(), "_PSK") || text::contains(k.as_str(), "PSK")
        || text::contains(a.as_str(), "PSK");
    let krb5 = text::contains(n.as_str(), "KRB5") || text::contains(k.as_str(), "KRB5")
        || text::contains(a.as_str(), "KRB5");
    let srp = text::contains(n.as_str(), "_SRP_") || text::contains(k.as_str(), "SRP");
    let gost = text::contains(n.as_str(), "GOST") || text::contains(k.as_str(), "GOSTR");
    let other = text::contains(n.as_str(), "ECCPWD") || text::contains(n.as_str(), "SHA256_SHA256")
        || text::contains(n.as_str(), "SHA384_SHA384");
    psk || krb5 || srp || gost || other
}

fn lists_label(labels: &Vec<String>, label: &str) -> (r: bool)
    ensures
        r == text::texts(labels@).contains(label@),
{
    let mut i: usize = 0;
    while i < labels.len()
        invariant
            i <= labels@.len(),
            forall|j: int| 0 <= j < i ==> (#[trigger] labels@[j])@ != label@,
        decreases labels@.len() - i,
    {
        if text::same(labels[i].as_str(), label) {
            assert(text::texts(labels@)[i as int] == label@);
            return true;
        }
        i = i + 1;
    }
    assert forall|j: int| 0 <= j < labels@.len() implies #[trigger] text::texts(labels@)[j]
        != label@ by {
        assert(labels@[j]@ != label@);
    }
    false
}

/// Returns whether the suite works over SSL 3.0.
pub fn suite_is_sslv3_capable(code: u16, name: &String, raw: &RawSuite) -> (r: bool)
    ensures
        r == sslv3_capable(code, raw_model(*name, *raw)),
{
    !is_tls13_only_code(code) && lists_label(&raw.tls_version, "TLS1.0") && !hash_is_tls12_only(
        raw.hash_algorithm.as_str(),
    ) && !enc_is_aead(raw.enc_algorithm.as_str()) && !kex_requires_extensions(
        raw.kex_algorithm.as_str(),
        name.as_str(),
    ) && !name_is_post_sslv3_only(
        name.as_str(),
        raw.kex_algorithm.as_str(),
        raw.auth_algorithm.as_str(),
    )
}

// ---------------------------------------------------------------------------
// Entries
// ---------------------------------------------------------------------------

/// The version labels of a suite, with one for SSL 3.0 behind them where the suite works over SSL
/// 3.0 and the service does not say so.
pub open spec fn labels_of(raw: RawModel) -> Seq<Seq<char>> {
    if sslv3_capable(code_of(raw)->0, raw) && !raw.tls_version.contains("SSL3.0"@) {
        raw.tls_version.push("SSL3.0"@)
    } else {
        raw.tls_version
    }
}

/// The versions that `labels` name, in order.
pub open spec fn versions_of(labels: Seq<Seq<char>>) -> Seq<TlsVersion>
    decreases labels.len(),
{
    if labels.len() == 0 {
        seq![]
    } else {
        let before = versions_of(labels.drop_last());
        match version_of(labels.last()) {
            Ok(Some(v)) => before.push(v),
            _ => before,
        }
    }
}

/// The catalog entry for a suite that the service lists.
pub open spec fn listed_entry(raw: RawModel) -> SuiteModel {
    SuiteModel {
        code: code_of(raw)->0,
        iana_name: raw.name,
        openssl_name: raw.openssl_name,
        gnutls_name: raw.gnutls_name,
        protocol_version: raw.protocol_version,
        kex_algorithm: raw.kex_algorithm,
        auth_algorithm: raw.auth_algorithm,
        enc_algorithm: raw.enc_algorithm,
        hash_algorithm: raw.hash_algorithm,
        security: security_of(raw.security)->0,
        tls_versions: versions_of(labels_of(raw)),
    }
}

/// The catalog entry for a FORTEZZA suite.
pub open spec fn fortezza_entry(code: u16, name: Seq<char>, enc: Seq<char>) -> SuiteModel {
    SuiteModel {
        code,
        iana_name: name,
        openssl_name: seq![],
        gnutls_name: seq![],
        protocol_version: "SSL"@,
        kex_algorithm: "KEA"@,
        auth_algorithm: "KEA"@,
        enc_algorithm: enc,
        hash_algorithm: "SHA"@,
        security: Security::Insecure,
        tls_versions: seq![TlsVersion::Ssl30],
    }
}

/// The FORTEZZA suites.
pub open spec fn fortezza_entries() -> Seq<SuiteModel> {
    seq![
        fortezza_entry(0x001C, "SSL_FORTEZZA_KEA_WITH_NULL_SHA"@, "NULL"@),
        fortezza_entry(0x001D, "SSL_FORTEZZA_KEA_WITH_FORTEZZA_CBC_SHA"@, "FORTEZZA_CBC"@),
        fortezza_entry(0x001E, "SSL_FORTEZZA_KEA_WITH_RC4_128_SHA"@, "RC4_128"@),
    ]
}

/// Whether the service lists a suite under `code`.
pub open spec fn lists_code(raws: Seq<RawModel>, code: u16) -> bool {
    exists|i: int| 0 <= i < raws.len() && code_of(#[trigger] raws[i]) == Some(code)
}

/// Whether `m` belongs into the catalog that `raws` makes.
pub open spec fn is_entry(raws: Seq<RawModel>, m: SuiteModel) -> bool {
    ||| exists|i: int| 0 <= i < raws.len() && m == listed_entry(#[trigger] raws[i])
    ||| fortezza_entries().contains(m) && !lists_code(raws, m.code)
}

/// Whether `suites` holds `m`.
pub open spec fn holds(suites: Seq<CipherSuite>, m: SuiteModel) -> bool {
    exists|i: int| 0 <= i < suites.len() && suite_model(#[trigger] suites[i]) == m
}

pub open spec fn has_bad_hex(raws: Seq<RawModel>) -> bool {
    exists|i: int| 0 <= i < raws.len() && code_of(#[trigger] raws[i]) is None
}

pub open spec fn has_unknown_version(labels: Seq<Seq<char>>) -> bool {
    exists|i: int| 0 <= i < labels.len() && version_of(#[trigger] labels[i]) is Err
}

pub open spec fn some_unknown_version(raws: Seq<RawModel>) -> bool {
    exists|i: int| 0 <= i < raws.len() && has_unknown_version((#[trigger] raws[i]).tls_version)
}

pub open spec fn some_unknown_security(raws: Seq<RawModel>) -> bool {
    exists|i: int| 0 <= i < raws.len() && security_of((#[trigger] raws[i]).security) is None
}

pub open spec fn some_duplicate_code(raws: Seq<RawModel>) -> bool {
    exists|i: int, j: int|
        0 <= i < j < raws.len() && code_of(#[trigger] raws[i]) == code_of(#[trigger] raws[j])
}

pub open spec fn some_duplicate_name(raws: Seq<RawModel>) -> bool {
    exists|m: SuiteModel, n: SuiteModel|
        #[trigger] is_entry(raws, m) && #[trigger] is_entry(raws, n) && m.code != n.code
            && m.iana_name == n.iana_name
}

/// Why `raws` makes no catalog, if it makes none. The first reason that holds counts.
pub open spec fn build_error(raws: Seq<RawModel>) -> Option<CatalogError> {
    if has_bad_hex(raws) {
        Some(CatalogError::BadHexByte)
    } else if raws.len() == 0 {
        Some(CatalogError::Empty)
    } else if some_unknown_version(raws) {
        Some(CatalogError::UnknownVersion)
    } else if some_unknown_security(raws) {
        Some(CatalogError::UnknownSecurity)
    } else if some_duplicate_code(raws) {
        Some(CatalogError::DuplicateCode)
    } else if some_duplicate_name(raws) {
        Some(CatalogError::DuplicateName)
    } else {
        None
    }
}

/// Returns the code of a suite, if its two bytes can be read.
pub fn suite_code(raw: &RawSuite) -> (r: Option<u16>)
    ensures
        forall|name: String| r == #[trigger] code_of(raw_model(name, *raw)),
        r == match (hex_byte(raw.hex_byte_1@), hex_byte(raw.hex_byte_2@)) {
            (Some(high), Some(low)) => Some((high * 256 + low) as u16),
            _ => None,
        },
{
    match (
        parse_hex_byte(raw.hex_byte_1.as_str()),
        parse_hex_byte(raw.hex_byte_2.as_str()),
    ) {
        (Some(high), Some(low)) => Some(high as u16 * 256 + low as u16),
        _ => None,
    }
}

fn labels_are_known(labels: &Vec<String>) -> (r: bool)
    ensures
        r == !has_unknown_version(text::texts(labels@)),
{
    let mut i: usize = 0;
    while i < labels.len()
        invariant
            i <= labels@.len(),
            forall|j: int| 0 <= j < i ==> version_of((#[trigger] labels@[j])@) is Ok,
        decreases labels@.len() - i,
    {
        if tls_version_variant(labels[i].as_str()).is_err() {
            assert(version_of(text::texts(labels@)[i as int]) is Err);
            return false;
        }
        i = i + 1;
    }
    assert forall|j: int| 0 <= j < labels@.len() implies version_of(
        #[trigger] text::texts(labels@)[j],
    ) is Ok by {
        assert(version_of(labels@[j]@) is Ok);
    }
    true
}

fn known_versions(labels: &Vec<String>) -> (versions: Vec<TlsVersion>)
    ensures
        versions@ == versions_of(text::texts(labels@)),
{
    let mut versions: Vec<TlsVersion> = Vec::new();
    let mut i: usize = 0;
    let ghost all = text::texts(labels@);
    while i < labels.len()
        invariant
            i <= labels@.len(),
            all == text::texts(labels@),
            versions@ == versions_of(all.take(i as int)),
        decreases labels@.len() - i,
    {
        if let Ok(Some(v)) = tls_version_variant(labels[i].as_str()) {
            versions.push(v);
        }
        assert(all.take(i + 1).drop_last() =~= all.take(i as int));
        assert(all.take(i + 1).last() == labels@[i as int]@);
        i = i + 1;
    }
    assert(all.take(i as int) =~= all);
    versions
}

fn listed_suite(name: String, raw: RawSuite) -> (r: Option<CipherSuite>)
    ensures
        ({
            let model = raw_model(name, raw);
            match r {
                Some(suite) => code_of(model) is Some && security_of(model.security) is Some
                    && suite_model(suite) == listed_entry(model),
                None => code_of(model) is None || security_of(model.security) is None,
            }
        }),
{
    let ghost model = raw_model(name, raw);
    let code: u16 = match suite_code(&raw) {
        Some(code) => code,
        None => {
            return None;
        },
    };
    let security = match security_variant(raw.security.as_str()) {
        Ok(level) => level,
        Err(_) => {
            return None;
        },
    };
    let capable = suite_is_sslv3_capable(code, &name, &raw);
    let mut labels = raw.tls_version;
    if capable && !lists_label(&labels, "SSL3.0") {
        labels.push(String::from_str("SSL3.0"));
    }
    assert(text::texts(labels@) =~= labels_of(model));
    let suite = CipherSuite {
        code,
        iana_name: name,
        openssl_name: raw.openssl_name,
        gnutls_name: raw.gnutls_name,
        protocol_version: raw.protocol_version,
        kex_algorithm: raw.kex_algorithm,
        auth_algorithm: raw.auth_algorithm,
        enc_algorithm: raw.enc_algorithm,
        hash_algorithm: raw.hash_algorithm,
        security,
        tls_versions: known_versions(&labels),
    };
    assert(suite_model(suite) =~= listed_entry(model));
    Some(suite)
}

fn make_fortezza_suite(code: u16, name: &str, enc: &str) -> (suite: CipherSuite)
    ensures
        suite_model(suite) == fortezza_entry(code, name@, enc@),
{
    let mut tls_versions: Vec<TlsVersion> = Vec::new();
    tls_versions.push(TlsVersion::Ssl30);
    let suite = CipherSuite {
        code,
        iana_name: String::from_str(name),
        openssl_name: String::new(),
        gnutls_name: String::new(),
        protocol_version: String::from_str("SSL"),
        kex_algorithm: String::from_str("KEA"),
        auth_algorithm: String::from_str("KEA"),
        enc_algorithm: String::from_str(enc),
        hash_algorithm: String::from_str("SHA"),
        security: Security::Insecure,
        tls_versions,
    };
    assert(suite_model(suite) =~= fortezza_entry(code, name@, enc@));
    suite
}

// ---------------------------------------------------------------------------
// The catalog
// ---------------------------------------------------------------------------

proof fn insertion_adds_one(suites: Seq<CipherSuite>, at: int, suite: CipherSuite)
    requires
        0 <= at <= suites.len(),
    ensures
        forall|m: SuiteModel|
            #[trigger] holds(suites.insert(at, suite), m) <==> holds(suites, m) || m == suite_model(
                suite,
            ),
{
    let after = suites.insert(at, suite);
    assert forall|m: SuiteModel| #[trigger] holds(after, m) <==> holds(suites, m) || m
        == suite_model(suite) by {
        if holds(after, m) {
            let i = choose|i: int| 0 <= i < after.len() && suite_model(#[trigger] after[i]) == m;
            if i < at {
                assert(after[i] == suites[i]);
            } else if i > at {
                assert(after[i] == suites[i - 1]);
            }
        }
        if holds(suites, m) {
            let i = choose|i: int|
                0 <= i < suites.len() && suite_model(#[trigger] suites[i]) == m;
            if i < at {
                assert(after[i] == suites[i]);
            } else {
                assert(after[i + 1] == suites[i]);
            }
        }
        if m == suite_model(suite) {
            assert(after[at] == suite);
        }
    }
}

/// Puts a suite at its place, unless another has its code.
fn insert_ascending(suites: &mut Vec<CipherSuite>, suite: CipherSuite) -> (added: bool)
    requires
        cipher_suite::ascending(old(suites)@),
    ensures
        cipher_suite::ascending(final(suites)@),
        added <==> forall|i: int|
            0 <= i < old(suites)@.len() ==> (#[trigger] old(suites)@[i]).code != suite.code,
        added ==> forall|m: SuiteModel|
            #[trigger] holds(final(suites)@, m) <==> holds(old(suites)@, m) || m == suite_model(
                suite,
            ),
        !added ==> final(suites)@ == old(suites)@,
{
    let mut at: usize = suites.len();
    while at > 0 && suites[at - 1].code > suite.code
        invariant
            at <= suites@.len(),
            suites@ == old(suites)@,
            cipher_suite::ascending(suites@),
            forall|i: int| at <= i < suites@.len() ==> (#[trigger] suites@[i]).code > suite.code,
        decreases at,
    {
        at = at - 1;
    }
    if at > 0 && suites[at - 1].code == suite.code {
        return false;
    }
    proof {
        insertion_adds_one(suites@, at as int, suite);
        if at > 0 {
            assert forall|i: int| 0 <= i < at implies (#[trigger] suites@[i]).code
                < suite.code by {
                assert(suites@[at - 1].code < suite.code);
            }
        }
    }
    suites.insert(at, suite);
    proof {
        let before = old(suites)@;
        let after = suites@;
        assert forall|i: int, j: int| 0 <= i < j < after.len() implies (#[trigger] after[i]).code < (
        #[trigger] after[j]).code by {
            let a = if i < at {
                before[i]
            } else if i == at {
                suite
            } else {
                before[i - 1]
            };
            let b = if j < at {
                before[j]
            } else if j == at {
                suite
            } else {
                before[j - 1]
            };
            assert(after[i] == a && after[j] == b);
        }
    }
    true
}

/// Whether `suites` holds the entries of `raws` from the `from`th on, and nothing else.
spec fn holds_listed(suites: Seq<CipherSuite>, raws: Seq<RawModel>, from: int) -> bool {
    &&& forall|i: int| from <= i < raws.len() ==> holds(suites, listed_entry(#[trigger] raws[i]))
    &&& forall|m: SuiteModel| #[trigger]
        holds(suites, m) ==> exists|i: int|
            from <= i < raws.len() && m == listed_entry(#[trigger] raws[i])
}

fn check_listed(raws: &Vec<(String, RawSuite)>) -> (r: Result<(), CatalogError>)
    ensures
        ({
            let models = raw_models(raws@);
            match r {
                Ok(_) => !has_bad_hex(models) && models.len() > 0 && !some_unknown_version(models)
                    && !some_unknown_security(models),
                Err(e) => build_error(models) == Some(e),
            }
        }),
{
    let ghost models = raw_models(raws@);
    let mut i: usize = 0;
    let mut bad_hex = false;
    let mut bad_version = false;
    let mut bad_security = false;
    while i < raws.len()
        invariant
            i <= raws@.len(),
            models == raw_models(raws@),
            bad_hex == exists|j: int| 0 <= j < i && code_of(#[trigger] models[j]) is None,
            bad_version == exists|j: int|
                0 <= j < i && has_unknown_version((#[trigger] models[j]).tls_version),
            bad_security == exists|j: int|
                0 <= j < i && security_of((#[trigger] models[j]).security) is None,
        decreases raws@.len() - i,
    {
        assert(models[i as int] == raw_model(raws@[i as int].0, raws@[i as int].1));
        bad_hex = bad_hex || suite_code(&raws[i].1).is_none();
        bad_version = bad_version || !labels_are_known(&raws[i].1.tls_version);
        bad_security = bad_security || security_variant(raws[i].1.security.as_str()).is_err();
        i = i + 1;
    }
    if bad_hex {
        Err(CatalogError::BadHexByte)
    } else if raws.len() == 0 {
        Err(CatalogError::Empty)
    } else if bad_version {
        Err(CatalogError::UnknownVersion)
    } else if bad_security {
        Err(CatalogError::UnknownSecurity)
    } else {
        Ok(())
    }
}

proof fn taken_code_is_listed(
    suites: Seq<CipherSuite>,
    raws: Seq<RawModel>,
    at: int,
    suite: CipherSuite,
)
    requires
        0 <= at < raws.len(),
        !has_bad_hex(raws),
        holds_listed(suites, raws, at + 1),
        suite_model(suite) == listed_entry(raws[at]),
    ensures
        (exists|k: int| 0 <= k < suites.len() && (#[trigger] suites[k]).code == suite.code)
            <==> exists|j: int|
            at < j < raws.len() && code_of(raws[at]) == code_of(#[trigger] raws[j]),
{
    assert(code_of(raws[at]) == Some(suite.code));
    if exists|k: int| 0 <= k < suites.len() && (#[trigger] suites[k]).code == suite.code {
        let k = choose|k: int| 0 <= k < suites.len() && (#[trigger] suites[k]).code == suite.code;
        assert(holds(suites, suite_model(suites[k])));
        let j = choose|j: int|
            at + 1 <= j < raws.len() && suite_model(suites[k]) == listed_entry(#[trigger] raws[j]);
        assert(code_of(raws[j]) is Some);
        assert(code_of(raws[at]) == code_of(raws[j]));
    }
    if exists|j: int| at < j < raws.len() && code_of(raws[at]) == code_of(#[trigger] raws[j]) {
        let j = choose|j: int|
            at < j < raws.len() && code_of(raws[at]) == code_of(#[trigger] raws[j]);
        assert(holds(suites, listed_entry(raws[j])));
        let k = choose|k: int|
            0 <= k < suites.len() && suite_model(#[trigger] suites[k]) == listed_entry(raws[j]);
        assert(suites[k].code == suite.code);
    }
}

proof fn one_more_listed(
    before: Seq<CipherSuite>,
    after: Seq<CipherSuite>,
    raws: Seq<RawModel>,
    at: int,
)
    requires
        0 <= at < raws.len(),
        holds_listed(before, raws, at + 1),
        forall|m: SuiteModel|
            #[trigger] holds(after, m) <==> holds(before, m) || m == listed_entry(raws[at]),
    ensures
        holds_listed(after, raws, at),
{
    assert forall|i: int| at <= i < raws.len() implies holds(
        after,
        listed_entry(#[trigger] raws[i]),
    ) by {
        if i > at {
            assert(holds(before, listed_entry(raws[i])));
        }
    }
    assert forall|m: SuiteModel| #[trigger] holds(after, m) implies exists|i: int|
        at <= i < raws.len() && m == listed_entry(#[trigger] raws[i]) by {
        if m != listed_entry(raws[at]) {
            assert(holds(before, m));
        }
    }
}

fn listed_suites(raws: Vec<(String, RawSuite)>) -> (r: Option<Vec<CipherSuite>>)
    requires
        !has_bad_hex(raw_models(raws@)),
        !some_unknown_security(raw_models(raws@)),
    ensures
        match r {
            Some(suites) => !some_duplicate_code(raw_models(raws@)) && cipher_suite::ascending(
                suites@,
            ) && holds_listed(suites@, raw_models(raws@), 0),
            None => some_duplicate_code(raw_models(raws@)),
        },
{
    let ghost models = raw_models(raws@);
    let ghost all = raws@;
    let mut left = raws;
    let mut suites: Vec<CipherSuite> = Vec::new();
    while left.len() > 0
        invariant
            all == raws@,
            models == raw_models(raws@),
            left@.len() <= all.len(),
            left@ == all.take(left@.len() as int),
            !has_bad_hex(models),
            !some_unknown_security(models),
            cipher_suite::ascending(suites@),
            holds_listed(suites@, models, left@.len() as int),
            forall|i: int, j: int|
                left@.len() <= i < j < models.len() ==> code_of(#[trigger] models[i]) != code_of(
                    #[trigger] models[j],
                ),
        decreases left@.len(),
    {
        let ghost at = left@.len() - 1;
        let ghost before = suites@;
        assert(models[at] == raw_model(all[at].0, all[at].1));
        assert(code_of(models[at]) is Some);
        assert(security_of(models[at].security) is Some);
        if let Some((name, raw)) = left.pop() {
            assert(left@ =~= all.take(at));
            if let Some(suite) = listed_suite(name, raw) {
                proof {
                    taken_code_is_listed(before, models, at, suite);
                }
                let added = insert_ascending(&mut suites, suite);
                if !added {
                    return None;
                }
                proof {
                    one_more_listed(before, suites@, models, at);
                }
            }
        }
    }
    Some(suites)
}

/// Whether `suites` holds the listed entries and, of the first `k` FORTEZZA suites, those whose
/// code is not listed, and nothing else.
spec fn holds_with_fortezza(suites: Seq<CipherSuite>, raws: Seq<RawModel>, k: int) -> bool {
    forall|m: SuiteModel| #[trigger]
        holds(suites, m) <==> {
            ||| exists|i: int| 0 <= i < raws.len() && m == listed_entry(#[trigger] raws[i])
            ||| exists|f: int|
                0 <= f < k && m == #[trigger] fortezza_entries()[f] && !lists_code(raws, m.code)
        }
}

proof fn fortezza_code_is_taken(suites: Seq<CipherSuite>, raws: Seq<RawModel>, k: int)
    requires
        0 <= k < 3,
        !has_bad_hex(raws),
        holds_with_fortezza(suites, raws, k),
    ensures
        lists_code(raws, fortezza_entries()[k].code) <==> exists|i: int|
            0 <= i < suites.len() && (#[trigger] suites[i]).code == fortezza_entries()[k].code,
{
    let code = fortezza_entries()[k].code;
    if lists_code(raws, code) {
        let j = choose|j: int| 0 <= j < raws.len() && code_of(#[trigger] raws[j]) == Some(code);
        assert(holds(suites, listed_entry(raws[j])));
    }
    if exists|i: int| 0 <= i < suites.len() && (#[trigger] suites[i]).code == code {
        let i = choose|i: int| 0 <= i < suites.len() && (#[trigger] suites[i]).code == code;
        let m = suite_model(suites[i]);
        assert(holds(suites, m));
        if exists|j: int| 0 <= j < raws.len() && m == listed_entry(#[trigger] raws[j]) {
            let j = choose|j: int| 0 <= j < raws.len() && m == listed_entry(#[trigger] raws[j]);
            assert(code_of(raws[j]) is Some);
        }
    }
}

fn add_fortezza(
    suites: &mut Vec<CipherSuite>,
    code: u16,
    name: &str,
    enc: &str,
    Ghost(raws): Ghost<Seq<RawModel>>,
    Ghost(k): Ghost<int>,
)
    requires
        0 <= k < 3,
        !has_bad_hex(raws),
        fortezza_entry(code, name@, enc@) == fortezza_entries()[k],
        cipher_suite::ascending(old(suites)@),
        holds_with_fortezza(old(suites)@, raws, k),
    ensures
        cipher_suite::ascending(final(suites)@),
        holds_with_fortezza(final(suites)@, raws, k + 1),
{
    let ghost before = suites@;
    proof {
        fortezza_code_is_taken(before, raws, k);
    }
    let added = insert_ascending(suites, make_fortezza_suite(code, name, enc));
    proof {
        assert forall|m: SuiteModel| #[trigger] holds(suites@, m) <==> {
            ||| exists|i: int| 0 <= i < raws.len() && m == listed_entry(#[trigger] raws[i])
            ||| exists|f: int|
                0 <= f < k + 1 && m == #[trigger] fortezza_entries()[f] && !lists_code(raws, m.code)
        } by {
            assert(holds(before, m) <==> {
                ||| exists|i: int| 0 <= i < raws.len() && m == listed_entry(#[trigger] raws[i])
                ||| exists|f: int|
                    0 <= f < k && m == #[trigger] fortezza_entries()[f] && !lists_code(raws, m.code)
            });
            let last = fortezza_entries()[k];
        }
    }
}

fn names_differ(suites: &Vec<CipherSuite>) -> (r: bool)
    ensures
        r <==> forall|i: int, j: int|
            0 <= i < j < suites@.len() ==> (#[trigger] suites@[i]).iana_name@ != (
            #[trigger] suites@[j]).iana_name@,
{
    let mut i: usize = 0;
    while i < suites.len()
        invariant
            i <= suites@.len(),
            forall|a: int, b: int|
                0 <= a < i && a < b < suites@.len() ==> (#[trigger] suites@[a]).iana_name@ != (
                #[trigger] suites@[b]).iana_name@,
        decreases suites@.len() - i,
    {
        let mut j: usize = i + 1;
        while j < suites.len()
            invariant
                i < j <= suites@.len(),
                forall|b: int|
                    i < b < j ==> suites@[i as int].iana_name@ != (#[trigger] suites@[b]).iana_name@,
            decreases suites@.len() - j,
        {
            if text::same(suites[i].iana_name.as_str(), suites[j].iana_name.as_str()) {
                return false;
            }
            j = j + 1;
        }
        i = i + 1;
    }
    true
}

proof fn equal_names_are_duplicates(suites: Seq<CipherSuite>, raws: Seq<RawModel>)
    requires
        cipher_suite::ascending(suites),
        forall|m: SuiteModel| #[trigger] holds(suites, m) <==> is_entry(raws, m),
    ensures
        some_duplicate_name(raws) <==> exists|i: int, j: int|
            0 <= i < j < suites.len() && (#[trigger] suites[i]).iana_name@ == (
            #[trigger] suites[j]).iana_name@,
{
    if some_duplicate_name(raws) {
        let (m, n) = choose|m: SuiteModel, n: SuiteModel|
            #[trigger] is_entry(raws, m) && #[trigger] is_entry(raws, n) && m.code != n.code
                && m.iana_name == n.iana_name;
        assert(holds(suites, m) && holds(suites, n));
        let i = choose|i: int| 0 <= i < suites.len() && suite_model(#[trigger] suites[i]) == m;
        let j = choose|j: int| 0 <= j < suites.len() && suite_model(#[trigger] suites[j]) == n;
        let (a, b) = if i < j {
            (i, j)
        } else {
            (j, i)
        };
        assert(suites[a].iana_name@ == suites[b].iana_name@);
    }
    if exists|i: int, j: int|
        0 <= i < j < suites.len() && (#[trigger] suites[i]).iana_name@ == (
        #[trigger] suites[j]).iana_name@ {
        let (i, j) = choose|i: int, j: int|
            0 <= i < j < suites.len() && (#[trigger] suites[i]).iana_name@ == (
            #[trigger] suites[j]).iana_name@;
        let m = suite_model(suites[i]);
        let n = suite_model(suites[j]);
        assert(holds(suites, m) && holds(suites, n));
        assert(is_entry(raws, m) && is_entry(raws, n) && m.code != n.code);
    }
}

proof fn all_fortezza_make_entries(suites: Seq<CipherSuite>, raws: Seq<RawModel>)
    requires
        holds_with_fortezza(suites, raws, 3),
    ensures
        forall|m: SuiteModel| #[trigger] holds(suites, m) <==> is_entry(raws, m),
{
    assert forall|m: SuiteModel| #[trigger] holds(suites, m) <==> is_entry(raws, m) by {
        assert(fortezza_entries().len() == 3);
        if fortezza_entries().contains(m) {
            let f = choose|f: int| 0 <= f < 3 && #[trigger] fortezza_entries()[f] == m;
        }
    }
}

/// Whether `suites` is the catalog that `raws` makes.
pub open spec fn is_built(raws: Seq<RawModel>, suites: Seq<CipherSuite>) -> bool {
    &&& build_error(raws) is None
    &&& cipher_suite::ascending(suites)
    &&& forall|m: SuiteModel| #[trigger] holds(suites, m) <==> is_entry(raws, m)
}

/// Makes the catalog from the suites that the service lists.
pub fn build(raws: Vec<(String, RawSuite)>) -> (r: Result<Catalog, CatalogError>)
    ensures
        r matches Ok(catalog) ==> is_built(raw_models(raws@), catalog@),
        r matches Err(e) ==> build_error(raw_models(raws@)) == Some(e),
        match r {
            Ok(catalog) => build_error(raw_models(raws@)) is None && cipher_suite::ascending(
                catalog@,
            ) && forall|m: SuiteModel| #[trigger]
                holds(catalog@, m) <==> is_entry(raw_models(raws@), m),
            Err(e) => build_error(raw_models(raws@)) == Some(e),
        },
{
    let ghost models = raw_models(raws@);
    if let Err(e) = check_listed(&raws) {
        return Err(e);
    }
    let mut suites = match listed_suites(raws) {
        Some(suites) => suites,
        None => {
            return Err(CatalogError::DuplicateCode);
        },
    };
    add_fortezza(
        &mut suites,
        0x001C,
        "SSL_FORTEZZA_KEA_WITH_NULL_SHA",
        "NULL",
        Ghost(models),
        Ghost(0),
    );
    add_fortezza(
        &mut suites,
        0x001D,
        "SSL_FORTEZZA_KEA_WITH_FORTEZZA_CBC_SHA",
        "FORTEZZA_CBC",
        Ghost(models),
        Ghost(1),
    );
    add_fortezza(
        &mut suites,
        0x001E,
        "SSL_FORTEZZA_KEA_WITH_RC4_128_SHA",
        "RC4_128",
        Ghost(models),
        Ghost(2),
    );
    proof {
        all_fortezza_make_entries(suites@, models);
        equal_names_are_duplicates(suites@, models);
    }
    if !names_differ(&suites) {
        return Err(CatalogError::DuplicateName);
    }
    Ok(Catalog::from_ascending(suites))
}

// ---------------------------------------------------------------------------
// Laws
// ---------------------------------------------------------------------------

proof fn one_more_label(labels: Seq<Seq<char>>, label: Seq<char>)
    ensures
        versions_of(labels.push(label)) == match version_of(label) {
            Ok(Some(v)) => versions_of(labels).push(v),
            _ => versions_of(labels),
        },
{
    assert(labels.push(label).drop_last() =~= labels);
}

proof fn label_names_its_version(labels: Seq<Seq<char>>, label: Seq<char>, v: TlsVersion)
    requires
        labels.contains(label),
        version_of(label) == Ok::<Option<TlsVersion>, CatalogError>(Some(v)),
    ensures
        versions_of(labels).contains(v),
    decreases labels.len(),
{
    let before = versions_of(labels.drop_last());
    if labels.last() == label {
        assert(versions_of(labels) == before.push(v));
        assert(before.push(v)[before.len() as int] == v);
    } else {
        let i = choose|i: int| 0 <= i < labels.len() && labels[i] == label;
        assert(labels.drop_last()[i] == label);
        label_names_its_version(labels.drop_last(), label, v);
        let j = choose|j: int| 0 <= j < before.len() && before[j] == v;
        assert(versions_of(labels)[j] == v);
    }
}

proof fn ssl3_label()
    ensures
        version_of("SSL3.0"@) == Ok::<Option<TlsVersion>, CatalogError>(Some(TlsVersion::Ssl30)),
        version_of("TLS1.0"@) == Ok::<Option<TlsVersion>, CatalogError>(Some(TlsVersion::Tls10)),
{
    reveal_strlit("SSL2.0");
    reveal_strlit("SSL2");
    reveal_strlit("SSL3.0");
    reveal_strlit("SSL3");
    reveal_strlit("TLS1.0");
    assert("SSL3.0"@[3] != "SSL2.0"@[3]);
    assert("TLS1.0"@[0] != "SSL2.0"@[0]);
    assert("TLS1.0"@[0] != "SSL3.0"@[0]);
}

/// An entry counts as a suite of SSL 3.0 exactly if the service says so or the suite works over
/// SSL 3.0.
pub proof fn ssl3_suites_are_those_that_work(raw: RawModel)
    ensures
        listed_entry(raw).tls_versions.contains(TlsVersion::Ssl30) <==> versions_of(
            raw.tls_version,
        ).contains(TlsVersion::Ssl30) || sslv3_capable(code_of(raw)->0, raw),
{
    ssl3_label();
    let given = versions_of(raw.tls_version);
    if sslv3_capable(code_of(raw)->0, raw) {
        if raw.tls_version.contains("SSL3.0"@) {
            label_names_its_version(raw.tls_version, "SSL3.0"@, TlsVersion::Ssl30);
        } else {
            one_more_label(raw.tls_version, "SSL3.0"@);
            assert(given.push(TlsVersion::Ssl30)[given.len() as int] == TlsVersion::Ssl30);
        }
    }
}

/// What came after SSL 3.0 rules it out: an AEAD cipher, a SHA-2 hash, elliptic curves, a code of TLS
/// 1.3, a later family, or that TLS 1.0 does not know the suite. Only the service itself can then
/// count the suite as one of SSL 3.0.
pub proof fn later_machinery_rules_ssl3_out(raw: RawModel)
    requires
        !versions_of(raw.tls_version).contains(TlsVersion::Ssl30),
        aead(raw.enc_algorithm) || sha2_hash(raw.hash_algorithm) || extension_kex(
            raw.kex_algorithm,
            raw.name,
        ) || tls13_code(code_of(raw)->0) || later_family(
            raw.name,
            raw.kex_algorithm,
            raw.auth_algorithm,
        ) || !raw.tls_version.contains("TLS1.0"@),
    ensures
        !listed_entry(raw).tls_versions.contains(TlsVersion::Ssl30),
{
    ssl3_suites_are_those_that_work(raw);
}

/// An entry keeps the versions that the service gives, and only SSL 3.0 may be added to them.
pub proof fn given_versions_are_kept(raw: RawModel)
    ensures
        listed_entry(raw).tls_versions == versions_of(raw.tls_version)
            || listed_entry(raw).tls_versions == versions_of(raw.tls_version).push(
            TlsVersion::Ssl30,
        ),
{
    ssl3_label();
    one_more_label(raw.tls_version, "SSL3.0"@);
}

/// A suite that works over SSL 3.0 works over TLS 1.0 and is none of those of TLS 1.3.
pub proof fn ssl3_suites_come_from_tls10(raw: RawModel)
    requires
        code_of(raw) is Some,
        sslv3_capable(code_of(raw)->0, raw),
    ensures
        listed_entry(raw).tls_versions.contains(TlsVersion::Tls10),
        !tls13_code(listed_entry(raw).code),
{
    ssl3_label();
    let given = versions_of(raw.tls_version);
    label_names_its_version(raw.tls_version, "TLS1.0"@, TlsVersion::Tls10);
    given_versions_are_kept(raw);
    let i = choose|i: int| 0 <= i < given.len() && given[i] == TlsVersion::Tls10;
    assert(listed_entry(raw).tls_versions[i] == TlsVersion::Tls10);
}

/// Where a catalog can be made, no two entries share a code.
pub proof fn codes_are_unique(raws: Seq<RawModel>, m: SuiteModel, n: SuiteModel)
    requires
        build_error(raws) is None,
        is_entry(raws, m),
        is_entry(raws, n),
        m.code == n.code,
    ensures
        m == n,
{
    let listed = |e: SuiteModel| exists|i: int|
        0 <= i < raws.len() && e == listed_entry(#[trigger] raws[i]);
    if listed(m) && listed(n) {
        let i = choose|i: int| 0 <= i < raws.len() && m == listed_entry(#[trigger] raws[i]);
        let j = choose|j: int| 0 <= j < raws.len() && n == listed_entry(#[trigger] raws[j]);
        assert(code_of(raws[i]) is Some && code_of(raws[j]) is Some);
        assert(code_of(raws[i]) == code_of(raws[j]));
    } else if listed(m) {
        let i = choose|i: int| 0 <= i < raws.len() && m == listed_entry(#[trigger] raws[i]);
        assert(code_of(raws[i]) == Some(m.code));
    } else if listed(n) {
        let j = choose|j: int| 0 <= j < raws.len() && n == listed_entry(#[trigger] raws[j]);
        assert(code_of(raws[j]) == Some(n.code));
    } else {
        assert(fortezza_entries().len() == 3);
    }
}

/// Where a catalog can be made, it has an entry under each FORTEZZA code: the listed suite where
/// the service lists one, else the FORTEZZA suite.
pub proof fn fortezza_codes_are_covered(raws: Seq<RawModel>, f: int)
    requires
        build_error(raws) is None,
        0 <= f < fortezza_entries().len(),
    ensures
        !lists_code(raws, fortezza_entries()[f].code) ==> is_entry(raws, fortezza_entries()[f]),
        lists_code(raws, fortezza_entries()[f].code) ==> exists|i: int|
            0 <= i < raws.len() && (#[trigger] listed_entry(raws[i])).code
                == fortezza_entries()[f].code && is_entry(raws, listed_entry(raws[i])),
{
    let code = fortezza_entries()[f].code;
    assert(fortezza_entries().contains(fortezza_entries()[f]));
    if lists_code(raws, code) {
        let i = choose|i: int| 0 <= i < raws.len() && code_of(#[trigger] raws[i]) == Some(code);
        assert(listed_entry(raws[i]).code == code);
    }
}

/// Every suite that the service lists stands in the catalog, and stands alone under its code.
pub proof fn listed_suites_are_found(suites: Seq<CipherSuite>, raws: Seq<RawModel>, i: int)
    requires
        cipher_suite::ascending(suites),
        forall|m: SuiteModel| #[trigger] holds(suites, m) <==> is_entry(raws, m),
        0 <= i < raws.len(),
    ensures
        exists|k: int|
            0 <= k < suites.len() && suite_model(#[trigger] suites[k]) == listed_entry(raws[i])
                && forall|j: int|
                0 <= j < suites.len() && (#[trigger] suites[j]).code == suites[k].code ==> j == k,
{
    let m = listed_entry(raws[i]);
    assert(is_entry(raws, m));
    assert(holds(suites, m));
    let k = choose|k: int| 0 <= k < suites.len() && suite_model(#[trigger] suites[k]) == m;
    assert forall|j: int|
        0 <= j < suites.len() && (#[trigger] suites[j]).code == suites[k].code implies j == k by {
        if j < k {
            assert(suites[j].code < suites[k].code);
        } else if k < j {
            assert(suites[k].code < suites[j].code);
        }
    }
}

} // verus!
