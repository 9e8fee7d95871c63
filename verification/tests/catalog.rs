use tls_scanner::tls::cipher_suite::{by_code, by_version, offerable_codes_for_version, Catalog};
use tls_scanner::tls::ciphers::{
    build, parse_hex_byte, security_variant, suite_is_sslv3_capable, tls_version_variant,
    CatalogError, RawSuite,
};
use tls_scanner::tls::{Security, TlsVersion};

fn raw(code: u16, versions: &[&str]) -> RawSuite {
    RawSuite {
        gnutls_name: "G".to_string(),
        openssl_name: "O".to_string(),
        hex_byte_1: format!("0x{:02X}", code >> 8),
        hex_byte_2: format!("0x{:02X}", code & 0xff),
        protocol_version: "TLS".to_string(),
        kex_algorithm: "RSA".to_string(),
        auth_algorithm: "RSA".to_string(),
        enc_algorithm: "AES 128 CBC".to_string(),
        hash_algorithm: "SHA".to_string(),
        security: "weak".to_string(),
        tls_version: versions.iter().map(|v| v.to_string()).collect(),
    }
}

fn named(name: &str, raw: RawSuite) -> (String, RawSuite) {
    (name.to_string(), raw)
}

fn made(raws: Vec<(String, RawSuite)>) -> Catalog {
    match build(raws) {
        Ok(catalog) => catalog,
        Err(e) => panic!("no catalog: {:?}", e),
    }
}

fn refused(raws: Vec<(String, RawSuite)>) -> CatalogError {
    match build(raws) {
        Ok(_) => panic!("a catalog"),
        Err(e) => e,
    }
}

#[test]
fn hex_bytes_are_read() {
    assert_eq!(parse_hex_byte("0xC0"), Some(0xc0));
    assert_eq!(parse_hex_byte("0X2f"), Some(0x2f));
    assert_eq!(parse_hex_byte("0x0X1F"), Some(0x1f));
    assert_eq!(parse_hex_byte("+7"), Some(7));
    assert_eq!(parse_hex_byte("00000ff"), Some(255));
    assert_eq!(parse_hex_byte(""), None);
    assert_eq!(parse_hex_byte("0x"), None);
    assert_eq!(parse_hex_byte("+"), None);
    assert_eq!(parse_hex_byte("-1"), None);
    assert_eq!(parse_hex_byte("100"), None);
    assert_eq!(parse_hex_byte("0xG0"), None);
}

#[test]
fn labels_are_read() {
    assert_eq!(security_variant("recommended"), Ok(Security::Recommended));
    assert_eq!(security_variant("secure"), Ok(Security::Secure));
    assert_eq!(security_variant("weak"), Ok(Security::Weak));
    assert_eq!(security_variant("insecure"), Ok(Security::Insecure));
    assert_eq!(security_variant("Weak"), Err(CatalogError::UnknownSecurity));
    assert_eq!(tls_version_variant("SSL2.0"), Ok(Some(TlsVersion::Ssl20)));
    assert_eq!(tls_version_variant("SSL3"), Ok(Some(TlsVersion::Ssl30)));
    assert_eq!(tls_version_variant("TLS1.1"), Ok(Some(TlsVersion::Tls11)));
    assert_eq!(tls_version_variant("TLS1.3"), Ok(Some(TlsVersion::Tls13)));
    assert_eq!(tls_version_variant(""), Ok(None));
    assert_eq!(tls_version_variant("TLS1.4"), Err(CatalogError::UnknownVersion));
}

#[test]
fn plain_suites_of_tls10_work_over_ssl3() {
    let name = "TLS_RSA_WITH_AES_128_CBC_SHA".to_string();
    assert!(suite_is_sslv3_capable(0x002f, &name, &raw(0x002f, &["TLS1.0", "TLS1.2"])));
    assert!(!suite_is_sslv3_capable(0x002f, &name, &raw(0x002f, &["TLS1.2"])));
    assert!(!suite_is_sslv3_capable(0x1301, &name, &raw(0x1301, &["TLS1.0"])));
    assert!(suite_is_sslv3_capable(0x1306, &name, &raw(0x1306, &["TLS1.0"])));
}

#[test]
fn later_machinery_rules_ssl3_out() {
    let plain = "TLS_X".to_string();
    let mut sha2 = raw(1, &["TLS1.0"]);
    sha2.hash_algorithm = "sha384".to_string();
    assert!(!suite_is_sslv3_capable(1, &plain, &sha2));
    for enc in ["AES 128 GCM", "AES 256 CCM 8", "CHACHA20 POLY1305"] {
        let mut aead = raw(1, &["TLS1.0"]);
        aead.enc_algorithm = enc.to_string();
        assert!(!suite_is_sslv3_capable(1, &plain, &aead));
    }
    for kex in ["ECDHE", "ecdh", "ECCPWD", "PSK", "SRP", "GOSTR 341112 256", "KRB5"] {
        let mut suite = raw(1, &["TLS1.0"]);
        suite.kex_algorithm = kex.to_string();
        assert!(!suite_is_sslv3_capable(1, &plain, &suite));
    }
    for name in [
        "TLS_ECDH_anon_WITH_NULL_SHA",
        "TLS_RSA_PSK_WITH_NULL_SHA",
        "TLS_SRP_SHA_WITH_AES_128_CBC_SHA",
        "TLS_GOSTR341094_WITH_28147_CNT_IMIT",
        "TLS_KRB5_WITH_DES_CBC_SHA",
        "TLS_SHA256_SHA256",
        "TLS_SHA384_SHA384",
    ] {
        assert!(!suite_is_sslv3_capable(1, &name.to_string(), &raw(1, &["TLS1.0"])));
    }
}

#[test]
fn capable_suites_are_tagged() {
    let mut gcm = raw(0x009c, &["TLS1.0", "TLS1.2"]);
    gcm.enc_algorithm = "AES 128 GCM".to_string();
    let catalog = made(vec![
        named("B", gcm),
        named("A", raw(0x002f, &["TLS1.0", "", "TLS1.1"])),
        named("C", raw(0x0030, &["SSL3.0", "TLS1.0"])),
    ]);
    let a = by_code(&catalog, 0x002f).unwrap();
    assert_eq!(a.tls_versions, vec![TlsVersion::Tls10, TlsVersion::Tls11, TlsVersion::Ssl30]);
    let b = by_code(&catalog, 0x009c).unwrap();
    assert_eq!(b.tls_versions, vec![TlsVersion::Tls10, TlsVersion::Tls12]);
    let c = by_code(&catalog, 0x0030).unwrap();
    assert_eq!(c.tls_versions, vec![TlsVersion::Ssl30, TlsVersion::Tls10]);
}

#[test]
fn entries_keep_what_is_listed() {
    let mut suite = raw(0xc02f, &["TLS1.2"]);
    suite.security = "recommended".to_string();
    let catalog = made(vec![named("TLS_SUITE", suite)]);
    let entry = by_code(&catalog, 0xc02f).unwrap();
    assert_eq!(entry.code, 0xc02f);
    assert_eq!(entry.iana_name, "TLS_SUITE");
    assert_eq!(entry.openssl_name, "O");
    assert_eq!(entry.gnutls_name, "G");
    assert_eq!(entry.protocol_version, "TLS");
    assert_eq!(entry.kex_algorithm, "RSA");
    assert_eq!(entry.auth_algorithm, "RSA");
    assert_eq!(entry.enc_algorithm, "AES 128 CBC");
    assert_eq!(entry.hash_algorithm, "SHA");
    assert_eq!(entry.security, Security::Recommended);
    assert_eq!(entry.tls_versions, vec![TlsVersion::Tls12]);
}

#[test]
fn fortezza_suites_are_added_where_their_codes_are_free() {
    let catalog = made(vec![named("TLS_KRB5_WITH_DES_CBC_SHA", raw(0x001e, &["TLS1.0"]))]);
    let codes: Vec<u16> = catalog.suites().iter().map(|s| s.code).collect();
    assert_eq!(codes, vec![0x001c, 0x001d, 0x001e]);
    let added = by_code(&catalog, 0x001d).unwrap();
    assert_eq!(added.iana_name, "SSL_FORTEZZA_KEA_WITH_FORTEZZA_CBC_SHA");
    assert_eq!(added.enc_algorithm, "FORTEZZA_CBC");
    assert_eq!(added.hash_algorithm, "SHA");
    assert_eq!(added.protocol_version, "SSL");
    assert_eq!(added.kex_algorithm, "KEA");
    assert_eq!(added.auth_algorithm, "KEA");
    assert_eq!(added.openssl_name, "");
    assert_eq!(added.security, Security::Insecure);
    assert_eq!(added.tls_versions, vec![TlsVersion::Ssl30]);
    let listed = by_code(&catalog, 0x001e).unwrap();
    assert_eq!(listed.iana_name, "TLS_KRB5_WITH_DES_CBC_SHA");
    assert_eq!(listed.tls_versions, vec![TlsVersion::Tls10]);
}

#[test]
fn lists_that_make_no_catalog_are_refused() {
    assert_eq!(refused(vec![]), CatalogError::Empty);
    let mut bad = raw(1, &[]);
    bad.hex_byte_2 = "zz".to_string();
    assert_eq!(refused(vec![named("A", bad)]), CatalogError::BadHexByte);
    assert_eq!(refused(vec![named("A", raw(1, &["TLS9"]))]), CatalogError::UnknownVersion);
    let mut level = raw(1, &[]);
    level.security = "fine".to_string();
    assert_eq!(refused(vec![named("A", level)]), CatalogError::UnknownSecurity);
    assert_eq!(
        refused(vec![named("A", raw(1, &[])), named("B", raw(1, &[]))]),
        CatalogError::DuplicateCode
    );
    assert_eq!(
        refused(vec![named("A", raw(1, &[])), named("A", raw(2, &[]))]),
        CatalogError::DuplicateName
    );
    assert_eq!(
        refused(vec![named("SSL_FORTEZZA_KEA_WITH_NULL_SHA", raw(1, &[]))]),
        CatalogError::DuplicateName
    );
}

#[test]
fn lookups_find_what_is_there() {
    let catalog = made(vec![
        named("C", raw(0x0300, &["TLS1.2"])),
        named("A", raw(0x0100, &["TLS1.2"])),
        named("B", raw(0x0200, &["TLS1.3"])),
    ]);
    assert_eq!(by_code(&catalog, 0x0100).unwrap().iana_name, "A");
    assert_eq!(by_code(&catalog, 0x0200).unwrap().iana_name, "B");
    assert_eq!(by_code(&catalog, 0x0300).unwrap().iana_name, "C");
    assert!(by_code(&catalog, 0x0150).is_none());
    assert!(by_code(&catalog, 0xffff).is_none());
    let names: Vec<&str> =
        by_version(&catalog, TlsVersion::Tls12).iter().map(|s| s.iana_name.as_str()).collect();
    assert_eq!(names, vec!["A", "C"]);
    assert_eq!(by_version(&catalog, TlsVersion::Ssl30).len(), 3);
    assert!(by_version(&catalog, TlsVersion::Ssl20).is_empty());
}

#[test]
fn signalling_codes_are_never_offered() {
    let catalog = made(vec![
        named("N", raw(0x0000, &["TLS1.2"])),
        named("R", raw(0x00ff, &["TLS1.2"])),
        named("F", raw(0x5600, &["TLS1.2"])),
        named("S", raw(0xc02f, &["TLS1.2"])),
        named("T", raw(0x009c, &["TLS1.2"])),
    ]);
    assert_eq!(
        offerable_codes_for_version(&catalog, TlsVersion::Tls12),
        vec![0x009c, 0xc02f]
    );
    assert!(!by_code(&catalog, 0x00ff).unwrap().is_offerable());
    assert!(by_code(&catalog, 0x009c).unwrap().is_offerable());
}

#[test]
fn suites_are_shown_in_the_color_of_their_level() {
    let mut red = raw(0x0001, &["TLS1.2"]);
    red.security = "insecure".to_string();
    let mut green = raw(0x0003, &["TLS1.2"]);
    green.security = "secure".to_string();
    let catalog = made(vec![
        named("RED", red),
        named("YELLOW", raw(0x0002, &["TLS1.2"])),
        named("GREEN", green),
    ]);
    let red = by_code(&catalog, 1).unwrap();
    assert_eq!(red.styled(false), "RED (0x0001) insecure");
    assert_eq!(red.styled(true), "\u{1b}[31mRED (0x0001) insecure\u{1b}[0m");
    let yellow = by_code(&catalog, 2).unwrap();
    assert_eq!(yellow.styled(true), "\u{1b}[33mYELLOW (0x0002) weak\u{1b}[0m");
    let green = by_code(&catalog, 3).unwrap();
    assert_eq!(green.styled(true), "\u{1b}[32mGREEN (0x0003) secure\u{1b}[0m");
    let shown = green.display();
    assert!(shown == green.styled(true) || shown == green.styled(false));
}
