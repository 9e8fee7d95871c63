use openssl::asn1::{Asn1Integer, Asn1Object, Asn1OctetString, Asn1Time};
use openssl::bn::BigNum;
use openssl::ec::{EcGroup, EcKey};
use openssl::hash::MessageDigest;
use openssl::nid::Nid;
use openssl::pkey::{PKey, Private};
use openssl::x509::extension::SubjectAlternativeName;
use openssl::x509::{X509Builder, X509Extension, X509Name, X509NameBuilder};
use tls_scanner::cert::certificate::{
    fetch_with_verify, peer_certificate, Certificate, Connected, FetchStep, PublicKey,
    Readings, CONNECT_ATTEMPTS,
};
use tls_scanner::cert::display::report;
use tls_scanner::retry::RetryError;
use tls_scanner::text::hex_lower;
use tls_scanner::tls::TlsVersion;

fn bare() -> Certificate {
    Certificate {
        subject: vec![],
        alt_names: None,
        serial: None,
        not_before: "from".to_string(),
        not_after: "until".to_string(),
        issuer: vec![],
        authority_info: None,
        public_key: None,
        signature: "alg".to_string(),
        digest: None,
        secure: false,
    }
}

fn line(text: &str, label: &str) -> Option<String> {
    text.lines().find(|l| l.starts_with(label)).map(|l| l[20..].to_string())
}

fn ec_key() -> PKey<Private> {
    let group = EcGroup::from_curve_name(Nid::X9_62_PRIME256V1).unwrap();
    PKey::from_ec_key(EcKey::generate(&group).unwrap()).unwrap()
}

fn name(common: &[&str]) -> X509Name {
    let mut builder = X509NameBuilder::new().unwrap();
    builder.append_entry_by_nid(Nid::ORGANIZATIONNAME, "Org").unwrap();
    for text in common {
        builder.append_entry_by_nid(Nid::COMMONNAME, text).unwrap();
    }
    builder.build()
}

fn issued(key: &PKey<Private>) -> X509Builder {
    let mut builder = X509Builder::new().unwrap();
    builder.set_version(2).unwrap();
    let serial = BigNum::from_hex_str("0ABCDEF5").unwrap();
    builder.set_serial_number(&Asn1Integer::from_bn(&serial).unwrap()).unwrap();
    builder.set_subject_name(&name(&["example.com", "other.example"])).unwrap();
    builder.set_issuer_name(&name(&["Test CA"])).unwrap();
    builder.set_not_before(&Asn1Time::from_unix(0).unwrap()).unwrap();
    builder.set_not_after(&Asn1Time::from_unix(86400).unwrap()).unwrap();
    builder.set_pubkey(key).unwrap();
    builder
}

fn full_certificate(key: &PKey<Private>) -> Vec<u8> {
    let mut builder = issued(key);
    let names = SubjectAlternativeName::new()
        .dns("example.com")
        .email("a@example.com")
        .ip("192.0.2.1")
        .build(&builder.x509v3_context(None, None))
        .unwrap();
    builder.append_extension(names).unwrap();
    let oid = Asn1Object::from_str("1.3.6.1.5.5.7.1.1").unwrap();
    let ocsp: [u8; 10] = [0x06, 0x08, 0x2b, 0x06, 0x01, 0x05, 0x05, 0x07, 0x30, 0x01];
    let issuers: [u8; 10] = [0x06, 0x08, 0x2b, 0x06, 0x01, 0x05, 0x05, 0x07, 0x30, 0x02];
    let mut info = vec![0x30, 38];
    info.extend_from_slice(&[0x30, 16]);
    info.extend_from_slice(&ocsp);
    info.extend_from_slice(&[0x86, 4]);
    info.extend_from_slice(b"o://");
    info.extend_from_slice(&[0x30, 18]);
    info.extend_from_slice(&issuers);
    info.extend_from_slice(&[0x86, 6]);
    info.extend_from_slice(b"u://ca");
    let data = Asn1OctetString::new_from_bytes(&info).unwrap();
    builder.append_extension(X509Extension::new_from_der(&oid, false, &data).unwrap()).unwrap();
    builder.sign(key, MessageDigest::sha256()).unwrap();
    builder.build().to_der().unwrap()
}

#[test]
fn certificates_are_read() {
    let key = ec_key();
    let der = full_certificate(&key);
    let cert = Certificate::read(&der, true).unwrap();
    assert_eq!(cert.subject, vec![Some("example.com".to_string()), Some("other.example".to_string())]);
    assert_eq!(cert.issuer, vec![Some("Test CA".to_string())]);
    assert_eq!(
        cert.alt_names,
        Some(vec![
            (Some("example.com".to_string()), None),
            (None, None),
            (None, Some(vec![192, 0, 2, 1])),
        ])
    );
    assert_eq!(cert.serial, Some("0ABCDEF5".to_string()));
    assert_eq!(cert.not_before, "Jan  1 00:00:00 1970 GMT");
    assert_eq!(cert.not_after, "Jan  2 00:00:00 1970 GMT");
    assert_eq!(
        cert.authority_info,
        Some(vec![(178, Some("o://".to_string())), (179, Some("u://ca".to_string()))])
    );
    assert_eq!(cert.signature, "ecdsa-with-SHA256");
    assert_eq!(cert.digest, Some(openssl::sha::sha256(&der).to_vec()));
    let public = cert.public_key.unwrap();
    assert_eq!(public.id, 408);
    assert_eq!(public.long_name, Some("id-ecPublicKey".to_string()));
    assert_eq!(public.bits, 256);
    assert_eq!(public.der, Some(key.public_key_to_der().unwrap()));
    assert!(cert.secure);
}

#[test]
fn certificates_are_shown() {
    let key = ec_key();
    let der = full_certificate(&key);
    let cert = Certificate::read(&der, false).unwrap();
    #[allow(deprecated)]
    let pin = base64::encode(openssl::sha::sha256(&key.public_key_to_der().unwrap()));
    let expected = format!(
        "Subject:            example.com\n\
         Alternative names:  example.com [192, 0, 2, 1]\n\
         Serial Number:      0abcdef5\n\
         Valid from:         Jan  1 00:00:00 1970 GMT\n\
         Valid until:        Jan  2 00:00:00 1970 GMT\n\
         Issuer:             Test CA (u://ca)\n\
         Key:                EC 256 bits\n\
         Signature:          ecdsa-with-SHA256\n\
         Fingerprint SHA256: {}\n\
         Pin SHA256:         {}\n\
         Trusted:            false\n",
        hex_lower(&openssl::sha::sha256(&der)),
        pin
    );
    assert_eq!(cert.to_text(), expected);
    assert_eq!(line(&expected, "Fingerprint SHA256:").unwrap().len(), 64);
    assert_eq!(line(&expected, "Pin SHA256:").unwrap().len(), 44);
}

#[test]
fn other_bytes_are_no_certificate() {
    assert!(Certificate::read(&[], true).is_none());
    assert!(Certificate::read(&[0x30, 0x03, 0x02, 0x01, 0x01], true).is_none());
}

#[test]
fn certificates_without_extensions_are_read() {
    let key = PKey::generate_ed25519().unwrap();
    let mut builder = issued(&key);
    builder.set_subject_name(&name(&[])).unwrap();
    builder.sign(&key, MessageDigest::null()).unwrap();
    let cert = Certificate::read(&builder.build().to_der().unwrap(), true).unwrap();
    assert!(cert.subject.is_empty());
    assert!(cert.alt_names.is_none());
    assert!(cert.authority_info.is_none());
    let text = cert.to_text();
    assert_eq!(line(&text, "Subject:").unwrap(), "<none>");
    assert_eq!(line(&text, "Alternative"), None);
    assert_eq!(line(&text, "Issuer:").unwrap(), "Test CA");
    assert_eq!(line(&text, "Key:").unwrap(), "Ed25519 256 bits");
    assert_eq!(line(&text, "Signature:").unwrap(), "ED25519");
    assert_eq!(line(&text, "Trusted:").unwrap(), "true");
}

#[test]
fn missing_contents_have_stand_ins() {
    assert_eq!(
        bare().to_text(),
        "Subject:            <none>\n\
         Serial Number:      <unknown>\n\
         Valid from:         from\n\
         Valid until:        until\n\
         Issuer:             <none>\n\
         Key:                <unknown>\n\
         Signature:          alg\n\
         Fingerprint SHA256: <unknown>\n\
         Pin SHA256:         <unknown>\n\
         Trusted:            false\n"
    );
}

#[test]
fn only_the_first_common_name_counts() {
    let mut cert = bare();
    cert.subject = vec![None, Some("second".to_string())];
    cert.issuer = vec![Some("first".to_string()), Some("second".to_string())];
    let text = cert.to_text();
    assert_eq!(line(&text, "Subject:").unwrap(), "<none>");
    assert_eq!(line(&text, "Issuer:").unwrap(), "first");
}

#[test]
fn only_the_first_issuer_entry_counts() {
    let mut cert = bare();
    cert.authority_info = Some(vec![
        (178, Some("ocsp".to_string())),
        (179, None),
        (179, Some("late".to_string())),
    ]);
    assert_eq!(line(&cert.to_text(), "Issuer:").unwrap(), "<none>");
    cert.authority_info = Some(vec![(178, None), (179, Some("here".to_string()))]);
    assert_eq!(line(&cert.to_text(), "Issuer:").unwrap(), "<none> (here)");
}

#[test]
fn long_name_lists_are_shortened() {
    let mut cert = bare();
    let names: Vec<(Option<String>, Option<Vec<u8>>)> =
        (0..10).map(|i| (Some(format!("host{}.test", i)), None)).collect();
    cert.alt_names = Some(names);
    let shown = line(&cert.to_text(), "Alternative names:").unwrap();
    assert_eq!(shown, "host0.test host1.test host2.test host3.test host4.test host5....");
    assert_eq!(shown.len(), 64);
    cert.alt_names = Some(vec![(Some("a".repeat(64)), None)]);
    assert_eq!(line(&cert.to_text(), "Alternative names:").unwrap(), "a".repeat(64));
    cert.alt_names = Some(vec![(Some("a".repeat(65)), None)]);
    assert_eq!(
        line(&cert.to_text(), "Alternative names:").unwrap(),
        format!("{}...", "a".repeat(61))
    );
}

#[test]
fn wide_names_are_shortened_by_columns() {
    let mut cert = bare();
    cert.alt_names = Some(vec![(Some("\u{4e2d}".repeat(40)), None)]);
    assert_eq!(
        line(&cert.to_text(), "Alternative names:").unwrap(),
        format!("{}...", "\u{4e2d}".repeat(30))
    );
}

#[test]
fn names_without_text_are_left_out() {
    let mut cert = bare();
    cert.alt_names = Some(vec![(None, None)]);
    assert_eq!(line(&cert.to_text(), "Alternative"), None);
    cert.alt_names = Some(vec![(None, Some(vec![])), (None, Some(vec![255]))]);
    assert_eq!(line(&cert.to_text(), "Alternative names:").unwrap(), "[] [255]");
}

#[test]
fn serial_numbers_are_lowercase() {
    let mut cert = bare();
    cert.serial = Some("-0ABF9".to_string());
    assert_eq!(line(&cert.to_text(), "Serial").unwrap(), "-0abf9");
    cert.serial = Some("\u{c4}X".to_string());
    assert_eq!(line(&cert.to_text(), "Serial").unwrap(), "\u{e4}x");
}

#[test]
fn keys_have_names() {
    let kinds = [
        (6, "RSA"),
        (116, "DSA"),
        (408, "EC"),
        (1087, "Ed25519"),
        (1088, "Ed448"),
        (1034, "X25519"),
        (1035, "X448"),
        (855, "HMAC"),
        (912, "long"),
    ];
    for (id, shown) in kinds {
        let mut cert = bare();
        cert.public_key =
            Some(PublicKey { id, long_name: Some("long".to_string()), bits: 2048, der: None });
        let text = cert.to_text();
        assert_eq!(line(&text, "Key:").unwrap(), format!("{} 2048 bits", shown));
        assert_eq!(line(&text, "Pin SHA256:").unwrap(), "<unknown>");
    }
    let mut cert = bare();
    cert.public_key = Some(PublicKey { id: 1, long_name: None, bits: 7, der: None });
    assert_eq!(line(&cert.to_text(), "Key:").unwrap(), "<unknown> 7 bits");
}

#[test]
fn key_numbers_are_those_of_the_library() {
    assert_eq!(openssl::pkey::Id::RSA.as_raw(), 6);
    assert_eq!(openssl::pkey::Id::DSA.as_raw(), 116);
    assert_eq!(openssl::pkey::Id::EC.as_raw(), 408);
    assert_eq!(openssl::pkey::Id::ED25519.as_raw(), 1087);
    assert_eq!(openssl::pkey::Id::ED448.as_raw(), 1088);
    assert_eq!(openssl::pkey::Id::X25519.as_raw(), 1034);
    assert_eq!(openssl::pkey::Id::X448.as_raw(), 1035);
    assert_eq!(openssl::pkey::Id::HMAC.as_raw(), 855);
    assert_eq!(Nid::AD_CA_ISSUERS.as_raw(), 179);
    assert_eq!(Nid::COMMONNAME.as_raw(), 13);
}

#[test]
fn pins_are_digests_in_base64() {
    let mut cert = bare();
    cert.public_key =
        Some(PublicKey { id: 6, long_name: None, bits: 1, der: Some(b"abc".to_vec()) });
    assert_eq!(
        line(&cert.to_text(), "Pin SHA256:").unwrap(),
        "ungWv48Bz+pBQUDeXa4iI7ADYaOWF3qctBD/YfIAFa0="
    );
}

#[test]
fn fingerprints_are_in_hex() {
    let mut cert = bare();
    cert.digest = Some(vec![0x0a, 0xff]);
    assert_eq!(line(&cert.to_text(), "Fingerprint SHA256:").unwrap(), "0aff");
}

#[test]
fn reports_take_the_shown_parts() {
    let text = report(&bare(), Some("names"), "serial", "pin");
    assert_eq!(line(&text, "Alternative names:").unwrap(), "names");
    assert_eq!(line(&text, "Serial Number:").unwrap(), "serial");
    assert_eq!(line(&text, "Pin SHA256:").unwrap(), "pin");
}

#[test]
fn checked_connections_check_everything() {
    let h = fetch_with_verify(true);
    assert_eq!(h.min_version, TlsVersion::Tls10);
    assert!(h.send_server_name && h.verify_peer && h.verify_hostname);
    assert_eq!((h.security_level, h.cipher_list), (None, None));
    let h = fetch_with_verify(false);
    assert_eq!(h.min_version, TlsVersion::Tls10);
    assert!(h.send_server_name && !h.verify_peer && !h.verify_hostname);
    assert_eq!((h.security_level, h.cipher_list), (Some(0), Some("ALL:@SECLEVEL=0")));
    assert_eq!(CONNECT_ATTEMPTS, 3);
}

#[test]
fn certificates_are_fetched_with_checks_first() {
    match Certificate::fetch(None, None) {
        FetchStep::Connect(h) => assert!(h.verify_peer),
        _ => panic!("no connection"),
    }
    match Certificate::fetch(Some(Ok(vec![1])), None) {
        FetchStep::Done { der, secure } => assert_eq!((der, secure), (vec![1], true)),
        _ => panic!("not done"),
    }
    match Certificate::fetch(Some(Err("no".to_string())), None) {
        FetchStep::Connect(h) => assert!(!h.verify_peer),
        _ => panic!("no connection"),
    }
    match Certificate::fetch(Some(Err("no".to_string())), Some(Ok(vec![2]))) {
        FetchStep::Done { der, secure } => assert_eq!((der, secure), (vec![2], false)),
        _ => panic!("not done"),
    }
    match Certificate::fetch(Some(Err("no".to_string())), Some(Err("never".to_string()))) {
        FetchStep::Failed(why) => assert_eq!(why, "never"),
        _ => panic!("no failure"),
    }
}

#[test]
fn only_unreachable_servers_are_tried_again() {
    match peer_certificate(Connected::Unreachable("io".to_string())) {
        Err(RetryError::Transient(why)) => assert_eq!(why, "io"),
        _ => panic!("not transient"),
    }
    let events = vec![
        (Connected::NotConfigured("c".to_string()), "c"),
        (Connected::NoHandshake("h".to_string()), "h"),
        (Connected::NoCertificate, "failed to fetch cert"),
    ];
    for (event, expected) in events {
        match peer_certificate(event) {
            Err(RetryError::Definitive(why)) => assert_eq!(why, expected),
            _ => panic!("not definitive"),
        }
    }
    match peer_certificate(Connected::Peer(vec![3])) {
        Ok(der) => assert_eq!(der, vec![3]),
        Err(_) => panic!("no certificate"),
    }
}

fn readings() -> Readings {
    Readings {
        subject: Some(vec![Some("s".to_string())]),
        alt_names: Some(None),
        serial: Some(Some("0A".to_string())),
        not_before: Some("f".to_string()),
        not_after: Some("u".to_string()),
        issuer: Some(vec![None]),
        authority_info: Some(Some(vec![(179, Some("p".to_string()))])),
        public_key: Some(Some((912, 2048, Some(vec![1])))),
        long_name: Some("rsassaPss".to_string()),
        signature: Some("g".to_string()),
        digest: Some(Some(vec![2])),
    }
}

#[test]
fn certificates_are_made_from_readings() {
    let cert = Certificate::from_readings(readings(), true).unwrap();
    assert_eq!(cert.subject, vec![Some("s".to_string())]);
    assert_eq!(cert.alt_names, None);
    assert_eq!(cert.serial, Some("0A".to_string()));
    assert_eq!((cert.not_before.as_str(), cert.not_after.as_str()), ("f", "u"));
    assert_eq!(cert.issuer, vec![None]);
    assert_eq!(cert.authority_info, Some(vec![(179, Some("p".to_string()))]));
    assert_eq!(cert.signature, "g");
    assert_eq!(cert.digest, Some(vec![2]));
    assert!(cert.secure);
    assert_eq!(line(&cert.to_text(), "Key:").unwrap(), "rsassaPss 2048 bits");
    let key = cert.public_key.unwrap();
    assert_eq!((key.id, key.bits, key.der), (912, 2048, Some(vec![1])));
    assert_eq!(key.long_name, Some("rsassaPss".to_string()));
}

#[test]
fn missing_readings_make_no_certificate() {
    let mut some = readings();
    some.public_key = Some(None);
    assert!(Certificate::from_readings(some, false).unwrap().public_key.is_none());
    let mut none = readings();
    none.signature = None;
    assert!(Certificate::from_readings(none, false).is_none());
    let mut none = readings();
    none.public_key = None;
    assert!(Certificate::from_readings(none, false).is_none());
}

#[test]
fn serial_numbers_are_lowercase_beside_any_names() {
    let mut cert = bare();
    cert.alt_names = Some(vec![(Some("b\u{fc}cher.example".to_string()), None)]);
    cert.serial = Some("0AB".to_string());
    let text = cert.to_text();
    assert_eq!(line(&text, "Serial").unwrap(), "0ab");
    assert_eq!(line(&text, "Alternative names:").unwrap(), "b\u{fc}cher.example");
}
