use tls_scanner::cert::certificate::Certificate;
use tls_scanner::scan::{TlsScan, TlsScanResults};
use tls_scanner::tls::cipher_suite::{by_code, Catalog};
use tls_scanner::tls::ciphers::{build, RawSuite};
use tls_scanner::tls::TlsVersion;

fn certificate() -> Certificate {
    Certificate {
        subject: vec![Some("s".to_string())],
        alt_names: None,
        serial: Some("A".to_string()),
        not_before: "f".to_string(),
        not_after: "u".to_string(),
        issuer: vec![Some("i".to_string())],
        authority_info: None,
        public_key: None,
        signature: "g".to_string(),
        digest: None,
        secure: true,
    }
}

fn catalog() -> Catalog {
    let mut raws = Vec::new();
    for (name, code, version) in
        [("TLS_A", "1", "TLS1.3"), ("TLS_B", "2", "TLS1.2"), ("TLS_C", "3", "TLS1.2")]
    {
        raws.push((
            name.to_string(),
            RawSuite {
                gnutls_name: String::new(),
                openssl_name: String::new(),
                hex_byte_1: "0x13".to_string(),
                hex_byte_2: code.to_string(),
                protocol_version: String::new(),
                kex_algorithm: String::new(),
                auth_algorithm: String::new(),
                enc_algorithm: String::new(),
                hash_algorithm: String::new(),
                security: "secure".to_string(),
                tls_version: vec![version.to_string()],
            },
        ));
    }
    match build(raws) {
        Ok(catalog) => catalog,
        Err(_) => panic!("no catalog"),
    }
}

#[test]
fn ports_are_no_part_of_the_name() {
    let scan = TlsScan::new("example.com:8443", true);
    assert_eq!(scan.sni(), "example.com");
    assert_eq!(scan.port(), None);
    let scan = TlsScan::new("[::1]:443", true);
    assert_eq!(scan.sni(), "[::1]");
    let scan = TlsScan::new("h", true);
    assert_eq!(scan.sni(), "h");
    let scan = TlsScan::new(":1", true);
    assert_eq!(scan.sni(), "");
}

#[test]
fn names_without_an_address_get_the_default_port() {
    let scan = TlsScan::new("example.com", false);
    assert_eq!(scan.sni(), "example.com");
    assert_eq!(scan.port(), Some(443));
    let scan = TlsScan::new("::1", false);
    assert_eq!(scan.sni(), "::1");
}

#[test]
fn scans_probe_every_version_from_tls10_on() {
    let catalog = catalog();
    let scan = TlsScan::new("h", false);
    let probes = scan.probes(&catalog);
    let versions: Vec<TlsVersion> = probes.iter().map(|p| p.version()).collect();
    assert_eq!(
        versions,
        vec![TlsVersion::Tls13, TlsVersion::Tls12, TlsVersion::Tls11, TlsVersion::Tls10]
    );
    let going: Vec<bool> = probes.iter().map(|p| p.goes_on()).collect();
    assert_eq!(going, vec![true, true, false, false]);
}

#[test]
fn outcomes_are_gathered_in_order() {
    let catalog = catalog();
    let scan = TlsScan::new("h", false);
    let mut probes = Vec::new();
    for probe in scan.probes(&catalog) {
        if probe.version() == TlsVersion::Tls12 {
            let probe = probe.answered(by_code(&catalog, 0x1303));
            probes.push(probe.answered(by_code(&catalog, 0x1302)));
        } else {
            probes.push(probe.answered(None));
        }
    }
    let outcome = match scan.run(probes, Ok(certificate())) {
        Ok(outcome) => outcome,
        Err(why) => panic!("{}", why),
    };
    assert_eq!(outcome.results.len(), 4);
    assert_eq!(outcome.results[0].0, TlsVersion::Tls13);
    assert!(outcome.results[0].1.is_none());
    let codes: Vec<u16> =
        outcome.results[1].1.as_ref().unwrap().iter().map(|s| s.code).collect();
    assert_eq!(codes, vec![0x1303, 0x1302]);
    assert!(outcome.results[2].1.is_none());
    assert!(outcome.results[3].1.is_none());
}

#[test]
fn scans_fail_without_a_certificate() {
    let scan = TlsScan::new("h", false);
    match scan.run(vec![], Err("no cert".to_string())) {
        Ok(_) => panic!("an outcome"),
        Err(why) => assert_eq!(why, "no cert"),
    }
}

#[test]
fn outcomes_are_shown() {
    let catalog = catalog();
    let outcome = TlsScanResults {
        results: vec![
            (TlsVersion::Tls13, Some(vec![by_code(&catalog, 0x1301).unwrap()])),
            (
                TlsVersion::Tls12,
                Some(vec![by_code(&catalog, 0x1303).unwrap(), by_code(&catalog, 0x1302).unwrap()]),
            ),
            (TlsVersion::Tls11, None),
        ],
        certificate: certificate(),
    };
    let expected = "certificate:\n   \
         Subject:            s\n   \
         Serial Number:      a\n   \
         Valid from:         f\n   \
         Valid until:        u\n   \
         Issuer:             i\n   \
         Key:                <unknown>\n   \
         Signature:          g\n   \
         Fingerprint SHA256: <unknown>\n   \
         Pin SHA256:         <unknown>\n   \
         Trusted:            true\n\
         \nprotocols:\n   \
         TLS 1.3: true\n   \
         TLS 1.2: true\n   \
         TLS 1.1: false\n\
         \ncipher suites:\n   \
         # TLS 1.3\n      \
         TLS_A (0x1301) secure\n   \
         # TLS 1.2\n      \
         TLS_C (0x1303) secure\n      \
         TLS_B (0x1302) secure\n";
    assert_eq!(outcome.to_text(false), expected);
    let colored = outcome.to_text(true);
    assert!(colored.contains("\n      \u{1b}[32mTLS_A (0x1301) secure\u{1b}[0m\n"));
    let shown = outcome.display();
    assert!(shown == expected || shown == colored);
}

#[test]
fn certificates_are_indented_where_they_have_text() {
    let outcome = TlsScanResults { results: vec![], certificate: certificate() };
    assert_eq!(
        outcome.layout("one\n\ntwo", false),
        "certificate:\n   one\n\n   two\nprotocols:\n\ncipher suites:\n"
    );
}
