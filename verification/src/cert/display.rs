//! Showing a certificate.

use vstd::prelude::*;

use crate::cert::certificate;
use crate::cert::certificate::{
    Certificate, CertificateModel, KeyModel, PublicKey, AD_CA_ISSUERS, KEY_DSA, KEY_EC,
    KEY_ED25519, KEY_ED448, KEY_HMAC, KEY_RSA, KEY_X25519, KEY_X448,
};
use crate::text;

verus! {

/// How wide the alternative names may be.
pub const ALT_NAMES_WIDTH: usize = 64;

// ---------------------------------------------------------------------------
// Names
// ---------------------------------------------------------------------------

/// The first common name, if there is one and it is a text.
pub open spec fn common_name_text(names: Seq<Option<Seq<char>>>) -> Seq<char> {
    if names.len() > 0 && names[0] is Some {
        names[0]->0
    } else {
        "<none>"@
    }
}

fn common_name(names: &Vec<Option<String>>) -> (s: String)
    ensures
        s@ == common_name_text(names.deep_view()),
{
    if names.len() > 0 {
        assert(names.deep_view()[0] == names@[0].deep_view());
        if let Some(name) = &names[0] {
            return name.clone();
        }
    }
    String::from_str("<none>")
}

/// The decimal numbers of the bytes, in brackets.
pub open spec fn byte_list_text(bytes: Seq<u8>) -> Seq<char> {
    "["@ + text::join_text(bytes.map_values(|b: u8| text::decimal_text(b as nat)), ", "@) + "]"@
}

fn byte_list(bytes: &Vec<u8>) -> (s: String)
    ensures
        s@ == byte_list_text(bytes@),
{
    let mut numbers: Vec<String> = Vec::new();
    let mut i: usize = 0;
    while i < bytes.len()
        invariant
            i <= bytes@.len(),
            numbers@.len() == i,
            forall|j: int|
                0 <= j < i ==> (#[trigger] numbers@[j])@ == text::decimal_text(bytes@[j] as nat),
        decreases bytes@.len() - i,
    {
        numbers.push(text::decimal(bytes[i] as u32));
        i = i + 1;
    }
    assert(text::texts(numbers@) =~= bytes@.map_values(|b: u8| text::decimal_text(b as nat)));
    let mut s = String::from_str("[");
    s.append(text::join(&numbers, ", ").as_str());
    s.append("]");
    s
}

/// How an alternative name is shown, if it is shown.
pub open spec fn alt_name_text(name: (Option<Seq<char>>, Option<Seq<u8>>)) -> Option<Seq<char>> {
    match name {
        (Some(dns), _) => Some(dns),
        (None, Some(ip)) => Some(byte_list_text(ip)),
        (None, None) => None,
    }
}

/// The alternative names that are shown, in order.
pub open spec fn shown_names(names: Seq<(Option<Seq<char>>, Option<Seq<u8>>)>) -> Seq<Seq<char>>
    decreases names.len(),
{
    if names.len() == 0 {
        seq![]
    } else {
        let before = shown_names(names.drop_last());
        match alt_name_text(names.last()) {
            Some(shown) => before.push(shown),
            None => before,
        }
    }
}

/// The alternative names of a certificate that are shown.
pub open spec fn alt_names_of(cert: CertificateModel) -> Seq<Seq<char>> {
    match cert.alt_names {
        Some(names) => shown_names(names),
        None => seq![],
    }
}

fn alt_name(name: &(Option<String>, Option<Vec<u8>>)) -> (r: Option<String>)
    ensures
        r.deep_view() == alt_name_text(name.deep_view()),
{
    match &name.0 {
        Some(dns) => Some(dns.clone()),
        None => match &name.1 {
            Some(ip) => {
                assert(ip.deep_view() =~= ip@);
                Some(byte_list(ip))
            },
            None => None,
        },
    }
}

fn alt_names(cert: &Certificate) -> (shown: Vec<String>)
    ensures
        text::texts(shown@) == alt_names_of(cert@),
{
    let mut shown: Vec<String> = Vec::new();
    assert(text::texts(shown@) =~= seq![]);
    if let Some(names) = &cert.alt_names {
        let ghost all = names.deep_view();
        let mut i: usize = 0;
        assert(all.take(0) =~= seq![]);
        while i < names.len()
            invariant
                i <= names@.len(),
                all == names.deep_view(),
                text::texts(shown@) == shown_names(all.take(i as int)),
            decreases names@.len() - i,
        {
            let ghost before = shown@;
            assert(all[i as int] == names@[i as int].deep_view());
            if let Some(name) = alt_name(&names[i]) {
                shown.push(name);
                assert(text::texts(shown@) =~= text::texts(before).push(name@));
            }
            assert(all.take(i + 1).drop_last() =~= all.take(i as int));
            i = i + 1;
        }
        assert(all.take(i as int) =~= all);
    }
    shown
}

/// Whether all characters of `s` are printable ASCII characters.
pub open spec fn printable(s: Seq<char>) -> bool {
    forall|i: int| 0 <= i < s.len() ==> 0x20 <= (#[trigger] s[i] as int) <= 0x7e
}

/// `s`, or its beginning followed by `tail` so that both take `width` characters.
pub open spec fn shortened(s: Seq<char>, width: int, tail: Seq<char>) -> Seq<char> {
    if s.len() <= width {
        s
    } else {
        s.take(width - tail.len()) + tail
    }
}

/// `s` shortened to `width` columns, as `console::truncate_str` gives it.
pub uninterp spec fn truncated(s: Seq<char>, width: usize, tail: Seq<char>) -> Seq<char>;

/// `console::truncate_str`. Its result is a function of its arguments. Of printable ASCII text it
/// keeps everything if the text is no wider than `width`, and else as much of its beginning as
/// leaves room for `tail`, which follows.
#[verifier::external_body]
fn truncate(s: &str, width: usize, tail: &str) -> (r: String)
    ensures
        r@ == truncated(s@, width, tail@),
        printable(s@) && printable(tail@) && tail@.len() <= width ==> r@ == shortened(
            s@,
            width as int,
            tail@,
        ),
{
    console::truncate_str(s, width, tail).to_string()
}

/// The alternative names that are shown, with spaces between them.
pub open spec fn joined_names(cert: CertificateModel) -> Seq<char> {
    text::join_text(alt_names_of(cert), " "@)
}

/// How the alternative names are shown, if there are any to show.
pub open spec fn alt_names_text(cert: CertificateModel) -> Option<Seq<char>> {
    if alt_names_of(cert).len() == 0 {
        None
    } else {
        Some(truncated(joined_names(cert), ALT_NAMES_WIDTH, "..."@))
    }
}

// ---------------------------------------------------------------------------
// Numbers and keys
// ---------------------------------------------------------------------------

/// The serial number as it is given, if it is known.
pub open spec fn given_serial(cert: CertificateModel) -> Seq<char> {
    match cert.serial {
        Some(serial) => serial,
        None => "<unknown>"@,
    }
}

/// The place that leads to the issuer's certificate: that of the first such method, if it is a URI.
pub open spec fn issuer_url_text(info: Seq<(i32, Option<Seq<char>>)>) -> Option<Seq<char>>
    decreases info.len(),
{
    if info.len() == 0 {
        None
    } else if info[0].0 == AD_CA_ISSUERS {
        info[0].1
    } else {
        issuer_url_text(info.skip(1))
    }
}

/// The issuer, with the place that leads to its certificate.
pub open spec fn issuer_text(cert: CertificateModel) -> Seq<char> {
    let name = common_name_text(cert.issuer);
    match cert.authority_info {
        Some(info) => match issuer_url_text(info) {
            Some(url) => name + " ("@ + url + ")"@,
            None => name,
        },
        None => name,
    }
}

fn issuer_url(info: &Vec<(i32, Option<String>)>) -> (r: Option<String>)
    ensures
        r.deep_view() == issuer_url_text(info.deep_view()),
{
    let ghost all = info.deep_view();
    let mut i: usize = 0;
    assert(all.skip(0) =~= all);
    while i < info.len()
        invariant
            i <= info@.len(),
            all == info.deep_view(),
            issuer_url_text(all) == issuer_url_text(all.skip(i as int)),
        decreases info@.len() - i,
    {
        assert(all.skip(i as int)[0] == info@[i as int].deep_view());
        assert(all.skip(i as int).skip(1) =~= all.skip(i + 1));
        if info[i].0 == AD_CA_ISSUERS {
            return match &info[i].1 {
                Some(url) => Some(url.clone()),
                None => None,
            };
        }
        i = i + 1;
    }
    None
}

fn issuer(cert: &Certificate) -> (s: String)
    ensures
        s@ == issuer_text(cert@),
{
    let mut s = common_name(&cert.issuer);
    if let Some(info) = &cert.authority_info {
        if let Some(url) = issuer_url(info) {
            s.append(" (");
            s.append(url.as_str());
            s.append(")");
        }
    }
    s
}

/// The name of the kind of a key.
pub open spec fn key_name_text(key: KeyModel) -> Seq<char> {
    if key.id == KEY_RSA {
        "RSA"@
    } else if key.id == KEY_DSA {
        "DSA"@
    } else if key.id == KEY_EC {
        "EC"@
    } else if key.id == KEY_ED25519 {
        "Ed25519"@
    } else if key.id == KEY_ED448 {
        "Ed448"@
    } else if key.id == KEY_X25519 {
        "X25519"@
    } else if key.id == KEY_X448 {
        "X448"@
    } else if key.id == KEY_HMAC {
        "HMAC"@
    } else {
        match key.long_name {
            Some(name) => name,
            None => "<unknown>"@,
        }
    }
}

/// The kind and the size of the key.
pub open spec fn key_text(cert: CertificateModel) -> Seq<char> {
    match cert.public_key {
        Some(key) => key_name_text(key) + " "@ + text::decimal_text(key.bits as nat) + " bits"@,
        None => "<unknown>"@,
    }
}

fn key_name(key: &PublicKey) -> (s: &str)
    ensures
        s@ == key_name_text(key@),
{
    if key.id == KEY_RSA {
        "RSA"
    } else if key.id == KEY_DSA {
        "DSA"
    } else if key.id == KEY_EC {
        "EC"
    } else if key.id == KEY_ED25519 {
        "Ed25519"
    } else if key.id == KEY_ED448 {
        "Ed448"
    } else if key.id == KEY_X25519 {
        "X25519"
    } else if key.id == KEY_X448 {
        "X448"
    } else if key.id == KEY_HMAC {
        "HMAC"
    } else {
        match &key.long_name {
            Some(name) => name.as_str(),
            None => "<unknown>",
        }
    }
}

fn key(cert: &Certificate) -> (s: String)
    ensures
        s@ == key_text(cert@),
{
    match &cert.public_key {
        Some(key) => {
            let mut s = String::from_str(key_name(key));
            s.append(" ");
            s.append(text::decimal(key.bits).as_str());
            s.append(" bits");
            s
        },
        None => String::from_str("<unknown>"),
    }
}

/// The SHA-256 digest in hexadecimal, if it is known.
pub open spec fn fingerprint_text(cert: CertificateModel) -> Seq<char> {
    match cert.digest {
        Some(digest) => text::hex_text(digest),
        None => "<unknown>"@,
    }
}

fn fingerprint(cert: &Certificate) -> (s: String)
    ensures
        s@ == fingerprint_text(cert@),
{
    match &cert.digest {
        Some(digest) => {
            assert(digest.deep_view() =~= digest@);
            text::hex_lower(digest.as_slice())
        },
        None => String::from_str("<unknown>"),
    }
}

/// The SHA-256 digest of `data`.
pub uninterp spec fn sha256_digest(data: Seq<u8>) -> Seq<u8>;

/// `openssl::sha::sha256`. Its result is a function of the data.
#[verifier::external_body]
fn sha256(data: &[u8]) -> (digest: [u8; 32])
    ensures
        digest@ == sha256_digest(data@),
{
    openssl::sha::sha256(data)
}

/// The character that stands for `n` below 64 in base64.
pub open spec fn base64_char(n: int) -> char {
    if n < 26 {
        ('A' as int + n) as char
    } else if n < 52 {
        ('a' as int + n - 26) as char
    } else if n < 62 {
        ('0' as int + n - 52) as char
    } else if n == 62 {
        '+'
    } else {
        '/'
    }
}

/// `bytes` in base64: four characters for three bytes, each for six bits, and `=` where the bytes
/// have run out.
pub open spec fn base64_text(bytes: Seq<u8>) -> Seq<char> {
    let byte = |i: int|
        if i < bytes.len() {
            bytes[i] as int
        } else {
            0
        };
    Seq::new(
        (bytes.len() + 2) / 3 * 4,
        |i: int|
            {
                let at = i / 4 * 3;
                if i % 4 == 0 {
                    base64_char(byte(at) / 4)
                } else if i % 4 == 1 {
                    base64_char(byte(at) % 4 * 16 + byte(at + 1) / 16)
                } else if i % 4 == 2 && at + 1 < bytes.len() {
                    base64_char(byte(at + 1) % 16 * 4 + byte(at + 2) / 64)
                } else if i % 4 == 3 && at + 2 < bytes.len() {
                    base64_char(byte(at + 2) % 64)
                } else {
                    '='
                }
            },
    )
}

/// `base64::encode`: the standard alphabet, with padding.
#[verifier::external_body]
#[allow(deprecated)]
fn base64_encode(bytes: &[u8; 32]) -> (s: String)
    ensures
        s@ == base64_text(bytes@),
{
    base64::encode(bytes)
}

/// The SHA-256 digest of the public key in base64, if the key can be written in DER.
pub open spec fn pin_text(cert: CertificateModel) -> Seq<char> {
    match cert.public_key {
        Some(KeyModel { der: Some(der), .. }) => base64_text(sha256_digest(der)),
        _ => "<unknown>"@,
    }
}

fn pin(cert: &Certificate) -> (s: String)
    ensures
        s@ == pin_text(cert@),
        cert@.public_key matches Some(key) ==> key.der matches Some(der) ==> sha256_digest(der).len()
            == 32,
{
    if let Some(key) = &cert.public_key {
        if let Some(der) = &key.der {
            assert(der.deep_view() =~= der@);
            return base64_encode(&sha256(der.as_slice()));
        }
    }
    String::from_str("<unknown>")
}

// ---------------------------------------------------------------------------
// The report
// ---------------------------------------------------------------------------

/// A line with a label.
pub open spec fn line_text(label: Seq<char>, value: Seq<char>) -> Seq<char> {
    label + value + "\n"@
}

fn put_line(out: &mut String, label: &str, value: &str)
    ensures
        final(out)@ == old(out)@ + line_text(label@, value@),
{
    out.append(label);
    out.append(value);
    out.append("\n");
    assert(out@ =~= old(out)@ + line_text(label@, value@));
}

/// The lines that show a certificate, given how its alternative names, its serial number and the
/// pin of its key are shown.
pub open spec fn report_text(
    cert: CertificateModel,
    alt_names: Option<Seq<char>>,
    serial: Seq<char>,
    pin: Seq<char>,
) -> Seq<char> {
    line_text("Subject:            "@, common_name_text(cert.subject)) + (match alt_names {
        Some(names) => line_text("Alternative names:  "@, names),
        None => seq![],
    }) + line_text("Serial Number:      "@, serial) + line_text(
        "Valid from:         "@,
        cert.not_before,
    ) + line_text("Valid until:        "@, cert.not_after) + line_text(
        "Issuer:             "@,
        issuer_text(cert),
    ) + line_text("Key:                "@, key_text(cert)) + line_text(
        "Signature:          "@,
        cert.signature,
    ) + line_text("Fingerprint SHA256: "@, fingerprint_text(cert)) + line_text(
        "Pin SHA256:         "@,
        pin,
    ) + line_text("Trusted:            "@, text::bool_text(cert.secure))
}

/// The lines that show a certificate.
pub open spec fn certificate_text(cert: CertificateModel) -> Seq<char> {
    report_text(
        cert,
        alt_names_text(cert),
        text::lowercase_text(given_serial(cert)),
        pin_text(cert),
    )
}

/// Shows a certificate, given how its alternative names, its serial number and the pin of its key
/// are shown.
pub fn report(
    cert: &Certificate,
    alt_names: Option<&str>,
    serial: &str,
    pin: &str,
) -> (s: String)
    ensures
        s@ == report_text(
            cert@,
            match alt_names {
                Some(names) => Some(names@),
                None => None,
            },
            serial@,
            pin@,
        ),
{
    let mut s = String::new();
    put_line(&mut s, "Subject:            ", common_name(&cert.subject).as_str());
    let ghost head = s@;
    if let Some(names) = alt_names {
        put_line(&mut s, "Alternative names:  ", names);
    }
    assert(head =~= line_text("Subject:            "@, common_name_text(cert@.subject)));
    assert(alt_names is None ==> s@ =~= head + seq![]);
    put_line(&mut s, "Serial Number:      ", serial);
    put_line(&mut s, "Valid from:         ", cert.not_before.as_str());
    put_line(&mut s, "Valid until:        ", cert.not_after.as_str());
    put_line(&mut s, "Issuer:             ", issuer(cert).as_str());
    put_line(&mut s, "Key:                ", key(cert).as_str());
    put_line(&mut s, "Signature:          ", cert.signature.as_str());
    put_line(&mut s, "Fingerprint SHA256: ", fingerprint(cert).as_str());
    put_line(&mut s, "Pin SHA256:         ", pin);
    put_line(&mut s, "Trusted:            ", text::bool_name(cert.secure));
    s
}

impl Certificate {
    /// Shows the certificate.
    pub fn to_text(&self) -> (s: String)
        ensures
            s@ == certificate_text(self@),
            text::ascii(given_serial(self@)) ==> text::lowercase_text(given_serial(self@))
                == text::lower(given_serial(self@)),
            alt_names_of(self@).len() > 0 && printable(joined_names(self@)) ==> alt_names_text(
                self@,
            ) == Some(shortened(joined_names(self@), ALT_NAMES_WIDTH as int, "..."@)),
            self@.public_key matches Some(key) ==> key.der matches Some(der) ==> sha256_digest(
                der,
            ).len() == 32,
    {
        proof {
            reveal_strlit("...");
        }
        let names = alt_names(self);
        let shown = if names.len() > 0 {
            Some(truncate(text::join(&names, " ").as_str(), ALT_NAMES_WIDTH, "..."))
        } else {
            None
        };
        let serial = match &self.serial {
            Some(serial) => text::lowercase(serial.as_str()),
            None => text::lowercase("<unknown>"),
        };
        let pin = pin(self);
        let alt = match &shown {
            Some(names) => Some(names.as_str()),
            None => None,
        };
        report(self, alt, serial.as_str(), pin.as_str())
    }
}

/// A shortened text is no longer than the room for it, and a text that fits is not changed.
pub proof fn shortened_texts_fit(s: Seq<char>, width: int, tail: Seq<char>)
    requires
        tail.len() <= width,
    ensures
        shortened(s, width, tail).len() <= width,
        s.len() <= width ==> shortened(s, width, tail) == s,
        s.len() > width ==> shortened(s, width, tail).len() == width,
{
}

/// The pin of a key is 44 characters long.
pub proof fn pins_have_one_length(digest: Seq<u8>)
    requires
        digest.len() == 32,
    ensures
        base64_text(digest).len() == 44,
{
}

/// The fingerprint of a certificate that was read is 64 characters long, if it is known.
pub proof fn fingerprints_have_one_length(cert: CertificateModel, der: Seq<u8>)
    requires
        certificate::has_contents(cert, der),
        cert.digest is Some,
    ensures
        fingerprint_text(cert) == text::hex_text(certificate::fingerprint(der)),
        fingerprint_text(cert).len() == 64,
{
}

/// The issuer's line rests on which methods lead to the issuer's certificate, and on nothing else
/// of the methods' numbers.
pub proof fn issuer_rests_on_marked_methods(
    a: Seq<(i32, Option<Seq<char>>)>,
    b: Seq<(i32, Option<Seq<char>>)>,
)
    requires
        certificate::marked_methods(Some(a)) == certificate::marked_methods(Some(b)),
    ensures
        issuer_url_text(a) == issuer_url_text(b),
    decreases a.len(),
{
    let marked = certificate::marked_methods(Some(a))->0;
    let same = certificate::marked_methods(Some(b))->0;
    assert(marked.len() == a.len() && same.len() == b.len());
    if a.len() > 0 {
        assert(marked[0] == same[0]);
        assert(marked.skip(1) =~= certificate::marked_methods(Some(a.skip(1)))->0);
        assert(same.skip(1) =~= certificate::marked_methods(Some(b.skip(1)))->0);
        issuer_rests_on_marked_methods(a.skip(1), b.skip(1));
    }
}

} // verus!
