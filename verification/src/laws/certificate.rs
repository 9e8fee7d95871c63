//! Promises about fetching, reading and showing a certificate.

use vstd::prelude::*;

use crate::cert::certificate;
use crate::cert::certificate::{Certificate, Connected, FetchStep, Handshake, PublicKey, Readings};
use crate::cert::display;
use crate::retry::RetryError;
use crate::text;
use crate::tls::TlsVersion;

verus! {

// ---------------------------------------------------------------------------
// Fetching
// ---------------------------------------------------------------------------

/// Whether `h` connects so that the certificate is checked.
pub open spec fn checks(h: Handshake) -> bool {
    &&& h.min_version == TlsVersion::Tls10
    &&& h.send_server_name
    &&& h.verify_peer
    &&& h.verify_hostname
    &&& h.security_level is None
    &&& h.cipher_list is None
}

/// Whether `h` connects to any server that has a certificate.
pub open spec fn checks_nothing(h: Handshake) -> bool {
    &&& h.min_version == TlsVersion::Tls10
    &&& h.send_server_name
    &&& !h.verify_peer
    &&& !h.verify_hostname
    &&& h.security_level == Some(0u32)
    &&& h.cipher_list matches Some(list) && list@ == "ALL:@SECLEVEL=0"@
}

/// A connection either checks the certificate in every way or in none.
pub proof fn connections_check_all_or_nothing(checked: Handshake, unchecked: Handshake)
    requires
        call_ensures(certificate::fetch_with_verify, (true,), checked),
        call_ensures(certificate::fetch_with_verify, (false,), unchecked),
    ensures
        checks(checked),
        checks_nothing(unchecked),
{
}

/// Only a connection that could not be made may be tried again; what the server sent is kept, and
/// so is what went wrong.
pub proof fn connections_end_so(event: Connected, r: Result<Vec<u8>, RetryError>)
    requires
        call_ensures(certificate::peer_certificate, (event,), r),
    ensures
        match event {
            Connected::Peer(der) => r matches Ok(cert) && cert@ == der@,
            Connected::Unreachable(why) => r matches Err(RetryError::Transient(text)) && text@
                == why@,
            Connected::NotConfigured(why) => r matches Err(RetryError::Definitive(text)) && text@
                == why@,
            Connected::NoHandshake(why) => r matches Err(RetryError::Definitive(text)) && text@
                == why@,
            Connected::NoCertificate => r matches Err(RetryError::Definitive(text)) && text@
                == "failed to fetch cert"@,
        },
{
}

/// A certificate is first fetched with all checks; it is trusted exactly if it comes that way. If
/// it does not, it is fetched without checks, and if that fails too, there is none, for the reason
/// that the second connection gave.
pub proof fn certificates_are_fetched_so(
    verified: Option<Result<Vec<u8>, String>>,
    unverified: Option<Result<Vec<u8>, String>>,
    step: FetchStep,
)
    requires
        call_ensures(Certificate::fetch, (verified, unverified), step),
    ensures
        verified is None ==> (step matches FetchStep::Connect(h) && checks(h)),
        verified matches Some(Ok(der)) ==> (step matches FetchStep::Done { der: cert, secure }
            && cert@ == der@ && secure),
        (verified matches Some(Err(_))) && unverified is None ==> (
        step matches FetchStep::Connect(h) && checks_nothing(h)),
        verified matches Some(Err(_)) ==> (unverified matches Some(Ok(der)) ==> (
        step matches FetchStep::Done { der: cert, secure } && cert@ == der@ && !secure)),
        verified matches Some(Err(_)) ==> (unverified matches Some(Err(why)) ==> (
        step matches FetchStep::Failed(text) && text@ == why@)),
{
}

// ---------------------------------------------------------------------------
// Reading
// ---------------------------------------------------------------------------

/// Whether `cert` is made of `readings`, field by field.
pub open spec fn keeps(cert: Certificate, readings: Readings, secure: bool) -> bool {
    &&& readings.subject matches Some(names) && cert.subject.deep_view() == names.deep_view()
    &&& readings.alt_names matches Some(names) && cert.alt_names.deep_view() == names.deep_view()
    &&& readings.serial matches Some(serial) && cert.serial.deep_view() == serial.deep_view()
    &&& readings.not_before matches Some(time) && cert.not_before@ == time@
    &&& readings.not_after matches Some(time) && cert.not_after@ == time@
    &&& readings.issuer matches Some(names) && cert.issuer.deep_view() == names.deep_view()
    &&& readings.authority_info matches Some(info) && cert.authority_info.deep_view()
        == info.deep_view()
    &&& readings.signature matches Some(name) && cert.signature@ == name@
    &&& readings.digest matches Some(digest) && cert.digest.deep_view() == digest.deep_view()
    &&& readings.public_key matches Some(read) && match read {
        Some((id, bits, der)) => cert.public_key matches Some(key) && key.id == id && key.bits
            == bits && key.der.deep_view() == der.deep_view() && key.long_name.deep_view()
            == readings.long_name.deep_view(),
        None => cert.public_key is None,
    }
    &&& cert.secure == secure
}

/// Whether a reading is missing.
pub open spec fn lacks(readings: Readings) -> bool {
    ||| readings.subject is None
    ||| readings.alt_names is None
    ||| readings.serial is None
    ||| readings.not_before is None
    ||| readings.not_after is None
    ||| readings.issuer is None
    ||| readings.authority_info is None
    ||| readings.public_key is None
    ||| readings.signature is None
    ||| readings.digest is None
}

/// A certificate keeps all that was read of it, and the key exactly if one was read; there is no
/// certificate exactly if a reading is missing.
pub proof fn certificates_keep_their_readings(
    readings: Readings,
    secure: bool,
    r: Option<Certificate>,
)
    requires
        call_ensures(Certificate::from_readings, (readings, secure), r),
    ensures
        r is None <==> lacks(readings),
        r matches Some(cert) ==> keeps(cert, readings, secure),
{
}

/// A certificate that is read keeps all that was read of the bytes, and the key exactly if one was
/// read.
pub proof fn certificates_that_are_read_keep_their_readings(
    der: &[u8],
    secure: bool,
    r: Option<Certificate>,
)
    requires
        call_ensures(Certificate::read, (der, secure), r),
    ensures
        exists|readings: Readings|
            {
                &&& #[trigger] certificate::were_read(der, readings)
                &&& r is None <==> lacks(readings)
                &&& r matches Some(cert) ==> keeps(cert, readings, secure)
            },
{
    let readings = choose|readings: Readings|
        {
            &&& #[trigger] certificate::were_read(der, readings)
            &&& r is Some <==> readings.is_complete()
            &&& r matches Some(cert) ==> cert@ == readings.certificate(secure)
        };
    assert(certificate::were_read(der, readings));
}

/// What a certificate that is read says is what its bytes say.
pub proof fn certificates_say_what_their_bytes_say(
    der: &[u8],
    secure: bool,
    r: Option<Certificate>,
)
    requires
        call_ensures(Certificate::read, (der, secure), r),
    ensures
        r is Some <==> certificate::not_before(der@) is Some,
        r matches Some(cert) ==> {
            &&& certificate::subject_common_names(der@) == Some(cert.subject.deep_view())
            &&& certificate::subject_alt_names(der@) == Some(cert.alt_names.deep_view())
            &&& certificate::serial_number(der@) == Some(cert.serial.deep_view())
            &&& certificate::not_before(der@) == Some(cert.not_before@)
            &&& certificate::not_after(der@) == Some(cert.not_after@)
            &&& certificate::issuer_common_names(der@) == Some(cert.issuer.deep_view())
            &&& cert.digest matches Some(digest) ==> digest.deep_view() == certificate::fingerprint(
                der@,
            )
            &&& cert.secure == secure
        },
{
}

// ---------------------------------------------------------------------------
// Showing
// ---------------------------------------------------------------------------

/// The first of the common names, or what stands for it.
pub open spec fn first_name(names: Vec<Option<String>>) -> Seq<char> {
    if names@.len() == 0 {
        "<none>"@
    } else {
        match names@[0] {
            Some(name) => name@,
            None => "<none>"@,
        }
    }
}

/// Whether an alternative name is shown.
pub open spec fn has_text(name: (Option<String>, Option<Vec<u8>>)) -> bool {
    name.0 is Some || name.1 is Some
}

/// A name as it stands, or else the bytes of an address in decimal, with commas between them and
/// brackets around them.
pub open spec fn text_of(name: (Option<String>, Option<Vec<u8>>)) -> Seq<char> {
    match name.0 {
        Some(dns) => dns@,
        None => "["@ + text::join_text(
            name.1->0@.map_values(|b: u8| text::decimal_text(b as nat)),
            ", "@,
        ) + "]"@,
    }
}

/// The texts of the alternative names that have one, in order.
pub open spec fn name_texts(cert: Certificate) -> Seq<Seq<char>> {
    match cert.alt_names {
        Some(names) => names@.filter(
            |n: (Option<String>, Option<Vec<u8>>)| has_text(n),
        ).map_values(|n: (Option<String>, Option<Vec<u8>>)| text_of(n)),
        None => seq![],
    }
}

/// Whether entry `i` is the first that leads to the issuer's certificate.
pub open spec fn leads_to_issuer(info: Seq<(i32, Option<String>)>, i: int) -> bool {
    &&& 0 <= i < info.len()
    &&& info[i].0 == 179
    &&& forall|j: int| 0 <= j < i ==> (#[trigger] info[j]).0 != 179
}

/// Whether `s` shows the issuer: its name, and in brackets the place of its certificate, if the
/// first entry that leads to the certificate has one.
pub open spec fn shows_issuer(s: Seq<char>, cert: Certificate) -> bool {
    let name = first_name(cert.issuer);
    match cert.authority_info {
        None => s == name,
        Some(info) => {
            &&& forall|i: int|
                leads_to_issuer(info@, i) ==> s == match (#[trigger] info@[i]).1 {
                    Some(url) => name + " ("@ + url@ + ")"@,
                    None => name,
                }
            &&& (forall|i: int| 0 <= i < info@.len() ==> (#[trigger] info@[i]).0 != 179) ==> s
                == name
        },
    }
}

/// The name of the kind of a key.
pub open spec fn kind_name(key: PublicKey) -> Seq<char> {
    if key.id == 6 {
        "RSA"@
    } else if key.id == 116 {
        "DSA"@
    } else if key.id == 408 {
        "EC"@
    } else if key.id == 855 {
        "HMAC"@
    } else if key.id == 1034 {
        "X25519"@
    } else if key.id == 1035 {
        "X448"@
    } else if key.id == 1087 {
        "Ed25519"@
    } else if key.id == 1088 {
        "Ed448"@
    } else {
        match key.long_name {
            Some(name) => name@,
            None => "<unknown>"@,
        }
    }
}

/// The kind and the size of the key.
pub open spec fn kind_and_size(cert: Certificate) -> Seq<char> {
    match cert.public_key {
        Some(key) => kind_name(key) + " "@ + text::decimal_text(key.bits as nat) + " bits"@,
        None => "<unknown>"@,
    }
}

/// The digest in hexadecimal.
pub open spec fn digest_text(cert: Certificate) -> Seq<char> {
    match cert.digest {
        Some(digest) => text::hex_text(digest@),
        None => "<unknown>"@,
    }
}

/// The pin of the key: the SHA-256 digest of its DER form in base64.
pub open spec fn key_pin(cert: Certificate) -> Seq<char> {
    match cert.public_key {
        Some(key) => match key.der {
            Some(der) => display::base64_text(display::sha256_digest(der@)),
            None => "<unknown>"@,
        },
        None => "<unknown>"@,
    }
}

/// The serial number as it is given.
pub open spec fn serial_given(cert: Certificate) -> Seq<char> {
    match cert.serial {
        Some(serial) => serial@,
        None => "<unknown>"@,
    }
}

/// The report on a certificate: one line for each of its fields, in this order.
pub open spec fn lines(
    cert: Certificate,
    names: Option<Seq<char>>,
    serial: Seq<char>,
    issuer: Seq<char>,
    pin: Seq<char>,
) -> Seq<char> {
    let head = "Subject:            "@ + first_name(cert.subject) + "\n"@;
    let names = match names {
        Some(shown) => "Alternative names:  "@ + shown + "\n"@,
        None => seq![],
    };
    let number = "Serial Number:      "@ + serial + "\n"@;
    let from = "Valid from:         "@ + cert.not_before@ + "\n"@;
    let until = "Valid until:        "@ + cert.not_after@ + "\n"@;
    let issued = "Issuer:             "@ + issuer + "\n"@;
    let key = "Key:                "@ + kind_and_size(cert) + "\n"@;
    let signature = "Signature:          "@ + cert.signature@ + "\n"@;
    let digest = "Fingerprint SHA256: "@ + digest_text(cert) + "\n"@;
    let pinned = "Pin SHA256:         "@ + pin + "\n"@;
    let trust = "Trusted:            "@ + (if cert.secure {
        "true"@
    } else {
        "false"@
    }) + "\n"@;
    head + names + number + from + until + issued + key + signature + digest + pinned + trust
}

proof fn names_of(cert: Certificate)
    ensures
        display::common_name_text(cert@.subject) == first_name(cert.subject),
        display::common_name_text(cert@.issuer) == first_name(cert.issuer),
{
    if cert.subject@.len() > 0 {
        assert(cert.subject.deep_view()[0] == cert.subject@[0].deep_view());
    }
    if cert.issuer@.len() > 0 {
        assert(cert.issuer.deep_view()[0] == cert.issuer@[0].deep_view());
    }
}

proof fn url_found(info: Seq<(i32, Option<Seq<char>>)>, i: int)
    requires
        0 <= i < info.len(),
        info[i].0 == 179,
        forall|j: int| 0 <= j < i ==> (#[trigger] info[j]).0 != 179,
    ensures
        display::issuer_url_text(info) == info[i].1,
    decreases i,
{
    if i > 0 {
        assert(info[0].0 != 179);
        assert forall|j: int| 0 <= j < i - 1 implies (#[trigger] info.skip(1)[j]).0 != 179 by {
            assert(info.skip(1)[j] == info[j + 1]);
        }
        url_found(info.skip(1), i - 1);
    }
}

proof fn url_not_found(info: Seq<(i32, Option<Seq<char>>)>)
    requires
        forall|j: int| 0 <= j < info.len() ==> (#[trigger] info[j]).0 != 179,
    ensures
        display::issuer_url_text(info) is None,
    decreases info.len(),
{
    if info.len() > 0 {
        assert(info[0].0 != 179);
        assert forall|j: int| 0 <= j < info.skip(1).len() implies (#[trigger] info.skip(1)[j]).0
            != 179 by {
            assert(info.skip(1)[j] == info[j + 1]);
        }
        url_not_found(info.skip(1));
    }
}

proof fn issuer_of(cert: Certificate)
    ensures
        shows_issuer(display::issuer_text(cert@), cert),
{
    names_of(cert);
    if let Some(info) = cert.authority_info {
        let all = info.deep_view();
        assert(cert@.authority_info == Some(all));
        assert forall|i: int| 0 <= i < info@.len() implies (#[trigger] all[i])
            == info@[i].deep_view() by {}
        assert forall|i: int| leads_to_issuer(info@, i) implies display::issuer_text(cert@)
            == match (#[trigger] info@[i]).1 {
            Some(url) => first_name(cert.issuer) + " ("@ + url@ + ")"@,
            None => first_name(cert.issuer),
        } by {
            assert forall|j: int| 0 <= j < i implies (#[trigger] all[j]).0 != 179 by {
                assert(info@[j].0 != 179);
            }
            url_found(all, i);
            assert(all[i] == info@[i].deep_view());
        }
        if forall|i: int| 0 <= i < info@.len() ==> (#[trigger] info@[i]).0 != 179 {
            assert forall|j: int| 0 <= j < all.len() implies (#[trigger] all[j]).0 != 179 by {
                assert(info@[j].0 != 179);
            }
            url_not_found(all);
        }
    }
}

proof fn one_name(name: (Option<String>, Option<Vec<u8>>))
    ensures
        display::alt_name_text(name.deep_view()) == if has_text(name) {
            Some(text_of(name))
        } else {
            None
        },
{
    if let Some(ip) = name.1 {
        assert(ip.deep_view() =~= ip@);
    }
}

proof fn shown_names_of(names: Seq<(Option<String>, Option<Vec<u8>>)>)
    ensures
        display::shown_names(
            names.map_values(|n: (Option<String>, Option<Vec<u8>>)| n.deep_view()),
        ) == names.filter(|n: (Option<String>, Option<Vec<u8>>)| has_text(n)).map_values(
            |n: (Option<String>, Option<Vec<u8>>)| text_of(n),
        ),
    decreases names.len(),
{
    reveal(Seq::filter);
    let viewed = names.map_values(|n: (Option<String>, Option<Vec<u8>>)| n.deep_view());
    let with_text = |n: (Option<String>, Option<Vec<u8>>)| has_text(n);
    let texts = |n: (Option<String>, Option<Vec<u8>>)| text_of(n);
    if names.len() > 0 {
        let before = names.drop_last();
        shown_names_of(before);
        one_name(names.last());
        assert(viewed.drop_last() =~= before.map_values(
            |n: (Option<String>, Option<Vec<u8>>)| n.deep_view(),
        ));
        if has_text(names.last()) {
            assert(names.filter(with_text) == before.filter(with_text).push(names.last()));
            assert(names.filter(with_text).map_values(texts) =~= before.filter(with_text).map_values(
                texts,
            ).push(text_of(names.last())));
        } else {
            assert(names.filter(with_text) == before.filter(with_text));
        }
    } else {
        assert(names.filter(with_text).map_values(texts) =~= seq![]);
    }
}

proof fn alt_names_are(cert: Certificate)
    ensures
        display::alt_names_of(cert@) == name_texts(cert),
{
    if let Some(names) = cert.alt_names {
        shown_names_of(names@);
        assert(names.deep_view() =~= names@.map_values(
            |n: (Option<String>, Option<Vec<u8>>)| n.deep_view(),
        ));
    }
}

proof fn report_lines(
    cert: Certificate,
    names: Option<Seq<char>>,
    serial: Seq<char>,
    pin: Seq<char>,
)
    ensures
        display::report_text(cert@, names, serial, pin) == lines(
            cert,
            names,
            serial,
            display::issuer_text(cert@),
            pin,
        ),
{
    names_of(cert);
    if let Some(digest) = cert.digest {
        assert(digest.deep_view() =~= digest@);
    }
    assert(display::key_text(cert@) == kind_and_size(cert));
    assert(display::fingerprint_text(cert@) == digest_text(cert));
}

/// A report shows each field of the certificate on a line of its own, in a fixed order.
pub proof fn reports_show_each_field(
    cert: &Certificate,
    names: Option<&str>,
    serial: &str,
    pin: &str,
    s: String,
)
    requires
        call_ensures(display::report, (cert, names, serial, pin), s),
    ensures
        exists|issuer: Seq<char>|
            {
                &&& #[trigger] shows_issuer(issuer, *cert)
                &&& s@ == lines(
                    *cert,
                    match names {
                        Some(shown) => Some(shown@),
                        None => None,
                    },
                    serial@,
                    issuer,
                    pin@,
                )
            },
{
    issuer_of(*cert);
    report_lines(
        *cert,
        match names {
            Some(shown) => Some(shown@),
            None => None,
        },
        serial@,
        pin@,
    );
    assert(shows_issuer(display::issuer_text(cert@), *cert));
}

/// Whether `shown` shows the alternative names: nothing if there are none to show, and else all of
/// them with a space between neighbours, cut to 64 columns.
pub open spec fn shows_names(shown: Option<Seq<char>>, cert: Certificate) -> bool {
    let joined = text::join_text(name_texts(cert), " "@);
    if name_texts(cert).len() == 0 {
        shown is None
    } else {
        &&& shown == Some(display::truncated(joined, 64, "..."@))
        &&& (forall|i: int| 0 <= i < joined.len() ==> ' ' <= #[trigger] joined[i] <= '~') ==> shown
            == Some(
            if joined.len() <= 64 {
                joined
            } else {
                joined.take(61) + "..."@
            },
        )
    }
}

/// Whether `shown` shows the serial number, or that it is not known, in lowercase.
pub open spec fn shows_serial(shown: Seq<char>, cert: Certificate) -> bool {
    let given = serial_given(cert);
    &&& shown == text::lowercase_text(given)
    &&& (forall|i: int| 0 <= i < given.len() ==> (#[trigger] given[i] as int) < 128) ==> {
        &&& shown.len() == given.len()
        &&& forall|i: int|
            0 <= i < given.len() ==> {
                &&& 'A' <= given[i] <= 'Z' ==> shown[i] as int == given[i] as int + 32
                &&& !('A' <= #[trigger] given[i] <= 'Z') ==> shown[i] == given[i]
            }
    }
}

/// A certificate is shown by its fields.
pub proof fn certificates_show_their_fields(cert: &Certificate, s: String)
    requires
        call_ensures(Certificate::to_text, (cert,), s),
    ensures
        is_shown(s@, *cert),
{
    alt_names_are(*cert);
    issuer_of(*cert);
    reveal_strlit("...");
    let names = display::alt_names_text(cert@);
    let serial = text::lowercase_text(display::given_serial(cert@));
    let pin = display::pin_text(cert@);
    report_lines(*cert, names, serial, pin);
    assert(display::given_serial(cert@) == serial_given(*cert));
    if let Some(key) = cert.public_key {
        if let Some(der) = key.der {
            assert(der.deep_view() =~= der@);
        }
    }
    assert(pin == key_pin(*cert));
    let given = serial_given(*cert);
    if forall|i: int| 0 <= i < given.len() ==> (#[trigger] given[i] as int) < 128 {
        assert(text::ascii(given));
        crate::laws::text::letters_are_lowered(given);
    }
    assert(shows_serial(serial, *cert));
    let joined = text::join_text(name_texts(*cert), " "@);
    if forall|i: int| 0 <= i < joined.len() ==> ' ' <= #[trigger] joined[i] <= '~' {
        assert(display::printable(joined));
    }
    assert(shows_names(names, *cert));
    assert(shows_issuer(display::issuer_text(cert@), *cert));
    assert(s@ == lines(*cert, names, serial, display::issuer_text(cert@), key_pin(*cert)));
}

/// Whether `s` shows the certificate.
pub open spec fn is_shown(s: Seq<char>, cert: Certificate) -> bool {
    exists|names: Option<Seq<char>>, serial: Seq<char>, issuer: Seq<char>|
        {
            &&& #[trigger] shows_names(names, cert)
            &&& #[trigger] shows_serial(serial, cert)
            &&& #[trigger] shows_issuer(issuer, cert)
            &&& s == lines(cert, names, serial, issuer, key_pin(cert))
        }
}

/// The six bits that a character of base64 stands for; -1 of another character.
pub open spec fn six_bits(c: char) -> int {
    if 'A' <= c <= 'Z' {
        c as int - 65
    } else if 'a' <= c <= 'z' {
        c as int - 71
    } else if '0' <= c <= '9' {
        c as int + 4
    } else if c == '+' {
        62
    } else if c == '/' {
        63
    } else {
        -1
    }
}

proof fn six_bits_of(n: int)
    requires
        0 <= n < 64,
    ensures
        six_bits(display::base64_char(n)) == n,
{
}

/// A pin can be read back: four characters stand for three bytes, high-order bits first, and where
/// the bytes run out, equals signs fill up the four characters.
pub proof fn pins_can_be_read_back(bytes: Seq<u8>, i: int)
    requires
        0 <= i,
        3 * i < bytes.len(),
    ensures
        ({
            let s = display::base64_text(bytes);
            let a = six_bits(s[4 * i]);
            let b = six_bits(s[4 * i + 1]);
            let c = six_bits(s[4 * i + 2]);
            let d = six_bits(s[4 * i + 3]);
            &&& s.len() == (bytes.len() + 2) / 3 * 4
            &&& 0 <= a < 64 && 0 <= b < 64
            &&& a * 4 + b / 16 == bytes[3 * i]
            &&& if 3 * i + 1 < bytes.len() {
                0 <= c < 64 && b % 16 * 16 + c / 4 == bytes[3 * i + 1]
            } else {
                b % 16 == 0 && s[4 * i + 2] == '='
            }
            &&& if 3 * i + 2 < bytes.len() {
                0 <= d < 64 && c % 4 * 64 + d == bytes[3 * i + 2]
            } else {
                s[4 * i + 3] == '=' && (3 * i + 1 < bytes.len() ==> c % 4 == 0)
            }
        }),
{
    let s = display::base64_text(bytes);
    let x = bytes[3 * i] as int;
    let y = if 3 * i + 1 < bytes.len() {
        bytes[3 * i + 1] as int
    } else {
        0
    };
    let z = if 3 * i + 2 < bytes.len() {
        bytes[3 * i + 2] as int
    } else {
        0
    };
    assert((4 * i) / 4 == i && (4 * i) % 4 == 0);
    assert((4 * i + 1) / 4 == i && (4 * i + 1) % 4 == 1);
    assert((4 * i + 2) / 4 == i && (4 * i + 2) % 4 == 2);
    assert((4 * i + 3) / 4 == i && (4 * i + 3) % 4 == 3);
    assert(4 * i + 3 < s.len());
    assert(s[4 * i] == display::base64_char(x / 4));
    assert(s[4 * i + 1] == display::base64_char(x % 4 * 16 + y / 16));
    six_bits_of(x / 4);
    six_bits_of(x % 4 * 16 + y / 16);
    six_bits_of(y % 16 * 4 + z / 64);
    six_bits_of(z % 64);
    if 3 * i + 1 < bytes.len() {
        assert(s[4 * i + 2] == display::base64_char(y % 16 * 4 + z / 64));
    }
    if 3 * i + 2 < bytes.len() {
        assert(s[4 * i + 3] == display::base64_char(z % 64));
    }
}

} // verus!
