use tls_scanner::tls::clienthello::{Extensions, TLSClientHello};
use tls_scanner::tls::TlsVersion;
use tls_scanner::wire::with_u16_length;

fn bytes_of(extension: Extensions) -> Vec<u8> {
    let mut buf = Vec::new();
    extension.write_to(&mut buf).unwrap();
    buf
}

#[test]
fn versions_have_names_and_numbers() {
    assert_eq!(TlsVersion::Ssl20.name(), "SSL 2.0");
    assert_eq!(TlsVersion::Ssl30.name(), "SSL 3.0");
    assert_eq!(TlsVersion::Tls10.name(), "TLS 1.0");
    assert_eq!(TlsVersion::Tls11.name(), "TLS 1.1");
    assert_eq!(TlsVersion::Tls12.name(), "TLS 1.2");
    assert_eq!(TlsVersion::Tls13.name(), "TLS 1.3");
    assert_eq!(TlsVersion::Ssl20.wire(), 0x0200);
    assert_eq!(TlsVersion::Ssl30.wire(), 0x0300);
    assert_eq!(TlsVersion::Tls13.wire(), 0x0304);
}

#[test]
fn legacy_numbers_stop_at_tls12() {
    assert_eq!(TlsVersion::Tls13.legacy_wire(), 0x0303);
    assert_eq!(TlsVersion::Tls12.legacy_wire(), 0x0303);
    assert_eq!(TlsVersion::Tls11.legacy_wire(), 0x0302);
    assert_eq!(TlsVersion::Tls10.legacy_wire(), 0x0301);
    assert_eq!(TlsVersion::Ssl30.legacy_wire(), 0x0300);
}

#[test]
fn probes_go_from_tls13_down_to_tls10() {
    assert_eq!(
        TlsVersion::probe_order(),
        vec![TlsVersion::Tls13, TlsVersion::Tls12, TlsVersion::Tls11, TlsVersion::Tls10]
    );
    let all = TlsVersion::all();
    assert_eq!(all.len(), 6);
    assert!(all[0] < all[5]);
}

#[test]
fn blocks_get_their_length() {
    let mut buf = vec![9u8];
    let r: Result<(), u8> = with_u16_length(&mut buf, |b: &mut Vec<u8>| {
        b.push(1);
        b.push(2);
        b.push(3);
        Ok(())
    });
    assert_eq!(r, Ok(()));
    assert_eq!(buf, vec![9, 0, 3, 1, 2, 3]);
}

#[test]
fn long_blocks_wrap_their_length() {
    let mut buf = Vec::new();
    let r: Result<(), u8> = with_u16_length(&mut buf, |b: &mut Vec<u8>| {
        b.resize(b.len() + 65537, 7);
        Ok(())
    });
    assert_eq!(r, Ok(()));
    assert_eq!(buf.len(), 65539);
    assert_eq!(&buf[..3], &[0, 1, 7]);
}

#[test]
fn failed_blocks_hand_the_error_on() {
    let mut buf = Vec::new();
    let r: Result<(), u8> = with_u16_length(&mut buf, |_: &mut Vec<u8>| Err(5));
    assert_eq!(r, Err(5));
}

#[test]
fn extensions_have_their_bytes() {
    assert_eq!(
        bytes_of(Extensions::ServerName("a.bc")),
        vec![0, 0, 0, 9, 0, 7, 0, 0, 4, b'a', b'.', b'b', b'c']
    );
    assert_eq!(bytes_of(Extensions::StatusRequest), vec![0, 5, 0, 5, 1, 0, 0, 0, 0]);
    assert_eq!(
        bytes_of(Extensions::SupportedGroups),
        vec![
            0, 0x0a, 0, 22, 0, 20, 0, 0x1d, 0, 0x17, 0, 0x18, 0, 0x19, 0, 0x1e, 1, 0, 1, 1, 1, 2, 1,
            3, 1, 4
        ]
    );
    assert_eq!(bytes_of(Extensions::EcPointFormats), vec![0, 0x0b, 0, 2, 1, 0]);
    assert_eq!(bytes_of(Extensions::EncryptThenMac), vec![0, 0x16, 0, 0]);
    assert_eq!(bytes_of(Extensions::ExtendedMasterSecret), vec![0, 0x17, 0, 0]);
    assert_eq!(bytes_of(Extensions::SessionTicket), vec![0, 0x23, 0, 0]);
    assert_eq!(bytes_of(Extensions::SupportedVersions13), vec![0, 0x2b, 0, 3, 2, 3, 4]);
    assert_eq!(bytes_of(Extensions::PskKeyExchangeModes), vec![0, 0x2d, 0, 2, 1, 1]);
    assert_eq!(bytes_of(Extensions::RenegotiationInfo), vec![0xff, 1, 0, 1, 0]);
}

#[test]
fn signature_algorithms_end_with_the_legacy_ones() {
    let bytes = bytes_of(Extensions::SignatureAlgorithms);
    assert_eq!(&bytes[..8], &[0, 0x0d, 0, 42, 0, 40, 8, 4]);
    assert_eq!(&bytes[40..], &[2, 1, 2, 3, 2, 2]);
    assert_eq!(bytes.len(), 46);
}

#[test]
fn key_shares_carry_the_key() {
    let key = [7u8; 32];
    let bytes = bytes_of(Extensions::KeyShare(&key));
    assert_eq!(&bytes[..10], &[0, 0x33, 0, 38, 0, 36, 0, 0x1d, 0, 32]);
    assert_eq!(&bytes[10..], &key);
}

#[test]
fn tls10_hello_is_exact() {
    let hello = TLSClientHello::new("h", TlsVersion::Tls10, &[0x002f, 0xc013]);
    let payload = hello.build_tls_payload().unwrap();
    let mut extensions: Vec<u8> = Vec::new();
    Extensions::ServerName("h").write_to(&mut extensions).unwrap();
    Extensions::ExtendedMasterSecret.write_to(&mut extensions).unwrap();
    Extensions::RenegotiationInfo.write_to(&mut extensions).unwrap();
    Extensions::SupportedGroups.write_to(&mut extensions).unwrap();
    Extensions::StatusRequest.write_to(&mut extensions).unwrap();
    Extensions::EcPointFormats.write_to(&mut extensions).unwrap();
    Extensions::SessionTicket.write_to(&mut extensions).unwrap();
    let mut body = vec![3, 1];
    body.extend_from_slice(&[0x42; 32]);
    body.extend_from_slice(&[0, 0, 4, 0x00, 0x2f, 0xc0, 0x13, 1, 0]);
    body.extend_from_slice(&[0, extensions.len() as u8]);
    body.extend_from_slice(&extensions);
    let mut expected = vec![0x16, 3, 1, 0, (body.len() + 4) as u8, 1, 0, 0, body.len() as u8];
    expected.extend_from_slice(&body);
    assert_eq!(payload, expected);
}

#[test]
fn tls12_hello_lists_signature_algorithms_last() {
    let hello = TLSClientHello::new("example.com", TlsVersion::Tls12, &[0xc02f]);
    let payload = hello.build_tls_payload().unwrap();
    assert_eq!(&payload[..3], &[0x16, 3, 1]);
    assert_eq!(&payload[9..11], &[3, 3]);
    assert_eq!(payload[43], 0);
    let tail = bytes_of(Extensions::SignatureAlgorithms);
    assert!(payload.ends_with(&tail));
    let record = payload[3] as usize * 256 + payload[4] as usize;
    assert_eq!(record, payload.len() - 5);
    let message = payload[7] as usize * 256 + payload[8] as usize;
    assert_eq!(message, payload.len() - 9);
}

#[test]
fn tls13_hello_has_a_session_id_and_a_key_share() {
    let hello = TLSClientHello::new("example.com", TlsVersion::Tls13, &[0x1301]);
    let payload = hello.payload_with(&[1; 32], &[2; 32]).unwrap();
    assert_eq!(&payload[9..11], &[3, 3]);
    assert_eq!(&payload[11..43], &[1; 32]);
    assert_eq!(payload[43], 32);
    assert_eq!(&payload[44..76], &[2; 32]);
    let start = payload.len() - 42;
    assert_eq!(&payload[start..start + 10], &[0, 0x33, 0, 38, 0, 36, 0, 0x1d, 0, 32]);
}

#[test]
fn tls13_hellos_draw_new_keys_and_session_ids() {
    let one = TLSClientHello::new("h", TlsVersion::Tls13, &[]).build_tls_payload().unwrap();
    let two = TLSClientHello::new("h", TlsVersion::Tls13, &[]).build_tls_payload().unwrap();
    assert_eq!(one.len(), two.len());
    assert_eq!(&one[11..43], &[0x42; 32]);
    assert_ne!(&one[44..76], &two[44..76]);
    assert_ne!(&one[44..76], &[0u8; 32]);
    assert_ne!(&one[one.len() - 32..], &two[two.len() - 32..]);
}

#[test]
fn fresh_randoms_are_drawn() {
    let hello = TLSClientHello::new("h", TlsVersion::Tls12, &[]).with_fresh_random();
    let one = hello.build_tls_payload().unwrap();
    let hello = TLSClientHello::new("h", TlsVersion::Tls12, &[]).with_fresh_random();
    let two = hello.build_tls_payload().unwrap();
    assert_ne!(&one[11..43], &two[11..43]);
    assert_ne!(&one[11..43], &[0x42; 32]);
    assert_ne!(&one[11..43], &[0u8; 32]);
}

#[test]
fn hellos_can_be_read_back() {
    let hello = TLSClientHello::new("example.com", TlsVersion::Tls12, &[0xc02f, 0x009c]);
    let payload = hello.build_tls_payload().unwrap();
    let (rest, record) = tls_parser::parse_tls_plaintext(&payload).unwrap();
    assert!(rest.is_empty());
    match &record.msg[0] {
        tls_parser::TlsMessage::Handshake(tls_parser::TlsMessageHandshake::ClientHello(c)) => {
            let codes: Vec<u16> = c.ciphers.iter().map(|c| c.0).collect();
            assert_eq!(codes, vec![0xc02f, 0x009c]);
            assert!(tls_parser::parse_tls_extensions(c.ext.unwrap()).is_ok());
        }
        _ => panic!("no client hello"),
    }
}

fn extension_types(version: TlsVersion) -> Vec<u16> {
    let hello = TLSClientHello::new("example.com", version, &[0x1301]);
    let payload = hello.build_tls_payload().unwrap();
    let session = payload[43] as usize;
    let mut at = 44 + session + 2 + 2 + 2 + 2;
    let mut types = Vec::new();
    while at < payload.len() {
        types.push(payload[at] as u16 * 256 + payload[at + 1] as u16);
        at += 4 + payload[at + 2] as usize * 256 + payload[at + 3] as usize;
    }
    types
}

#[test]
fn every_version_sends_its_own_extensions() {
    let old = vec![0x0000, 0x0017, 0xff01, 0x000a, 0x0005, 0x000b, 0x0023];
    assert_eq!(extension_types(TlsVersion::Tls10), old);
    assert_eq!(extension_types(TlsVersion::Tls11), old);
    assert_eq!(
        extension_types(TlsVersion::Tls12),
        vec![0x0000, 0x0017, 0xff01, 0x000a, 0x0005, 0x000b, 0x0016, 0x0023, 0x000d]
    );
    assert_eq!(
        extension_types(TlsVersion::Tls13),
        vec![0x0000, 0x0017, 0xff01, 0x000a, 0x0005, 0x000d, 0x002b, 0x002d, 0x0033]
    );
}

#[test]
fn session_ids_are_sent_for_tls13_only() {
    let hello = TLSClientHello::new("h", TlsVersion::Tls11, &[0x002f]);
    let one = hello.payload_with(&[1; 32], &[2; 32]).unwrap();
    let two = hello.payload_with(&[1; 32], &[3; 32]).unwrap();
    assert_eq!(one, two);
}
