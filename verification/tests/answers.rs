use tls_scanner::probe::{hello_failure, Probe, MAX_ATTEMPTS};
use tls_scanner::retry::RetryError;
use tls_scanner::tls::cipher_suite::{by_code, offerable_codes_for_version, Catalog};
use tls_scanner::tls::ciphers::{build, RawSuite};
use tls_scanner::tls::clienthello::HelloError;
use tls_scanner::tls::serverhello::{judge, read_server_hello, Answer, Record};
use tls_scanner::tls::TlsVersion;

fn catalog(codes: &[u16]) -> Catalog {
    let mut raws = Vec::new();
    for code in codes {
        raws.push((
            format!("SUITE_{}", code),
            RawSuite {
                gnutls_name: String::new(),
                openssl_name: String::new(),
                hex_byte_1: format!("{:02x}", code >> 8),
                hex_byte_2: format!("{:02x}", code & 0xff),
                protocol_version: String::new(),
                kex_algorithm: String::new(),
                auth_algorithm: String::new(),
                enc_algorithm: String::new(),
                hash_algorithm: String::new(),
                security: "secure".to_string(),
                tls_version: vec!["TLS1.2".to_string()],
            },
        ));
    }
    match build(raws) {
        Ok(catalog) => catalog,
        Err(_) => panic!("no catalog"),
    }
}

fn server_hello(code: u16) -> Vec<u8> {
    let mut hello = vec![3, 3];
    hello.extend_from_slice(&[5; 32]);
    hello.push(4);
    hello.extend_from_slice(&[6; 4]);
    hello.extend_from_slice(&code.to_be_bytes());
    hello.push(0);
    let mut bytes = vec![0x16, 3, 3, 0, (hello.len() + 4) as u8, 2, 0, 0, hello.len() as u8];
    bytes.extend_from_slice(&hello);
    bytes
}

fn transient(answer: Answer) -> String {
    match answer {
        Answer::Failed(RetryError::Transient(why)) => why,
        _ => panic!("no transient failure"),
    }
}

fn definitive(answer: Answer) -> String {
    match answer {
        Answer::Failed(RetryError::Definitive(why)) => why,
        _ => panic!("no definitive failure"),
    }
}

#[test]
fn server_hellos_name_the_suite() {
    let catalog = catalog(&[0xc02f, 0x009c]);
    let mut received = Vec::new();
    match read_server_hello(&mut received, &server_hello(0xc02f), &catalog) {
        Answer::Picked(suite) => assert_eq!(suite.code, 0xc02f),
        _ => panic!("nothing picked"),
    }
    assert_eq!(received, server_hello(0xc02f));
}

#[test]
fn answers_may_come_in_pieces() {
    let catalog = catalog(&[0x009c]);
    let mut received = Vec::new();
    let bytes = server_hello(0x009c);
    for at in 0..bytes.len() - 1 {
        let answer = read_server_hello(&mut received, &bytes[at..at + 1], &catalog);
        assert!(matches!(answer, Answer::More));
    }
    let answer = read_server_hello(&mut received, &bytes[bytes.len() - 1..], &catalog);
    assert!(matches!(answer, Answer::Picked(_)));
}

#[test]
fn bytes_behind_the_first_record_do_not_matter() {
    let catalog = catalog(&[0x009c]);
    let mut bytes = server_hello(0x009c);
    bytes.extend_from_slice(&[0x16, 3, 3, 0, 9, 1]);
    let mut received = Vec::new();
    let answer = read_server_hello(&mut received, &bytes, &catalog);
    assert!(matches!(answer, Answer::Picked(_)));
}

#[test]
fn alerts_are_refusals() {
    let catalog = catalog(&[0x009c]);
    let mut received = Vec::new();
    let answer = read_server_hello(&mut received, &[0x15, 3, 3, 0, 2, 2, 40], &catalog);
    assert_eq!(definitive(answer), "server sent alert");
}

#[test]
fn closed_connections_may_open_again() {
    let catalog = catalog(&[0x009c]);
    let mut received = vec![0x16, 3];
    let answer = read_server_hello(&mut received, &[], &catalog);
    assert_eq!(transient(answer), "server closed connection");
    assert_eq!(received, vec![0x16, 3]);
}

#[test]
fn unknown_suites_are_no_answer() {
    let catalog = catalog(&[0x009c]);
    let mut received = Vec::new();
    let answer = read_server_hello(&mut received, &server_hello(0xabcd), &catalog);
    assert_eq!(transient(answer), "no ServerHello in response");
}

#[test]
fn other_records_are_no_answer() {
    let catalog = catalog(&[0x009c]);
    let mut received = Vec::new();
    let answer = read_server_hello(&mut received, &[0x14, 3, 3, 0, 1, 1], &catalog);
    assert_eq!(transient(answer), "no ServerHello in response");
}

#[test]
fn garbage_is_a_parse_error() {
    let catalog = catalog(&[0x009c]);
    let mut received = Vec::new();
    let answer = read_server_hello(&mut received, b"HTTP/1.1 400 Bad", &catalog);
    let why = transient(answer);
    assert!(why.starts_with("parse error: Parsing Error: "));
}

#[test]
fn the_first_known_suite_counts() {
    let catalog = catalog(&[0x009c, 0xc02f]);
    let record = Record::Complete {
        kind: 0x16,
        messages: vec![None, Some(0xabcd), Some(0xc02f), Some(0x009c)],
    };
    match judge(record, &catalog) {
        Answer::Picked(suite) => assert_eq!(suite.code, 0xc02f),
        _ => panic!("nothing picked"),
    }
    assert!(matches!(judge(Record::Incomplete, &catalog), Answer::More));
    assert_eq!(
        transient(judge(Record::Malformed("why".to_string()), &catalog)),
        "parse error: why"
    );
}

#[test]
fn probes_find_what_the_server_takes() {
    let catalog = catalog(&[0x002f, 0x0035, 0x009c, 0xc02f]);
    let takes = [0xc02f, 0x0035];
    let mut probe = Probe::new("example.com", TlsVersion::Tls12, &catalog);
    let mut left = offerable_codes_for_version(&catalog, TlsVersion::Tls12);
    let mut rounds = 0;
    while probe.goes_on() {
        rounds += 1;
        let pick = takes.iter().find(|c| left.contains(c));
        left.retain(|c| Some(c) != pick);
        probe = probe.answered(pick.and_then(|c| by_code(&catalog, *c)));
    }
    assert_eq!(rounds, 3);
    let codes: Vec<u16> = probe.accepted_ciphers().unwrap().iter().map(|s| s.code).collect();
    assert_eq!(codes, vec![0xc02f, 0x0035]);
}

#[test]
fn probes_end_when_nothing_is_left() {
    let catalog = catalog(&[0x009c]);
    let mut probe = Probe::new("h", TlsVersion::Tls12, &catalog);
    assert!(probe.goes_on());
    probe = probe.answered(by_code(&catalog, 0x009c));
    assert!(!probe.goes_on());
    assert_eq!(probe.accepted_ciphers().unwrap().len(), 1);
}

#[test]
fn refused_probes_find_nothing() {
    let catalog = catalog(&[0x009c]);
    let probe = Probe::new("h", TlsVersion::Tls12, &catalog).answered(None);
    assert!(!probe.goes_on());
    assert!(probe.accepted_ciphers().is_none());
    let empty = Probe::new("h", TlsVersion::Ssl20, &catalog);
    assert!(!empty.goes_on());
    assert_eq!(MAX_ATTEMPTS, 3);
}

#[test]
fn the_last_code_takes_the_place_of_the_picked_one() {
    let catalog = catalog(&[0x002f, 0x0035, 0x009c]);
    let probe = Probe::new("h", TlsVersion::Tls12, &catalog);
    let first = probe.send_hello(false).unwrap();
    assert_eq!(&first[44..52], &[0, 6, 0x00, 0x2f, 0x00, 0x35, 0x00, 0x9c]);
    let probe = probe.answered(by_code(&catalog, 0x002f));
    let second = probe.send_hello(false).unwrap();
    assert_eq!(&second[44..50], &[0, 4, 0x00, 0x9c, 0x00, 0x35]);
}

#[test]
fn strange_picks_leave_the_offer_as_it_is() {
    let catalog = catalog(&[0x002f, 0x0035]);
    let probe = Probe::new("h", TlsVersion::Tls12, &catalog);
    let before = probe.send_hello(false).unwrap();
    let probe = probe.answered(by_code(&catalog, 0x001c));
    assert_eq!(probe.send_hello(false).unwrap(), before);
    assert!(probe.send_hello(true).unwrap() != before);
    assert_eq!(probe.version(), TlsVersion::Tls12);
    assert_eq!(probe.catalog().suites().len(), 5);
}

#[test]
fn alerts_may_come_in_pieces() {
    let catalog = catalog(&[0x009c]);
    let mut received = Vec::new();
    let bytes = [0x15, 3, 3, 0, 2, 2, 40];
    for at in 0..6 {
        let answer = read_server_hello(&mut received, &bytes[at..at + 1], &catalog);
        assert!(matches!(answer, Answer::More));
    }
    let answer = read_server_hello(&mut received, &bytes[6..], &catalog);
    assert_eq!(definitive(answer), "server sent alert");
}

#[test]
fn server_hellos_of_older_versions_are_understood() {
    let catalog = catalog(&[0x002f]);
    for version in [0, 1, 2, 3] {
        let mut bytes = server_hello(0x002f);
        bytes[10] = version;
        let mut received = Vec::new();
        match read_server_hello(&mut received, &bytes, &catalog) {
            Answer::Picked(suite) => assert_eq!(suite.code, 0x002f),
            _ => panic!("nothing picked"),
        }
    }
}

#[test]
fn overlong_records_are_parse_errors() {
    let catalog = catalog(&[0x002f]);
    let mut received = Vec::new();
    let answer = read_server_hello(&mut received, &[0x16, 3, 3, 0x41, 0x01, 2], &catalog);
    assert!(transient(answer).starts_with("parse error: "));
    let mut received = Vec::new();
    let answer = read_server_hello(&mut received, &[0x16, 3, 3, 0x41, 0x00, 2], &catalog);
    assert!(matches!(answer, Answer::More));
}

#[test]
fn messages_behind_the_server_hello_do_not_matter() {
    let catalog = catalog(&[0x009c, 0xc02f]);
    let others: Vec<Vec<u8>> = vec![
        vec![0x0e, 0, 0, 0],
        vec![0xee, 1, 2],
        server_hello(0xc02f)[5..].to_vec(),
    ];
    for other in others {
        let mut bytes = server_hello(0x009c);
        bytes.extend_from_slice(&other);
        bytes[4] += other.len() as u8;
        let mut received = Vec::new();
        match read_server_hello(&mut received, &bytes, &catalog) {
            Answer::Picked(suite) => assert_eq!(suite.code, 0x009c),
            _ => panic!("nothing picked"),
        }
    }
}

#[test]
fn missing_random_bytes_are_definitive() {
    match hello_failure(HelloError::RandomUnavailable("entropy source failed".to_string())) {
        RetryError::Definitive(why) => assert_eq!(why, "entropy source failed"),
        RetryError::Transient(_) => panic!("transient"),
    }
}

#[test]
fn other_records_may_come_in_pieces() {
    let catalog = catalog(&[0x009c]);
    let bytes = [0x14, 3, 3, 0, 1, 1, 0x16, 3, 3];
    let mut received = Vec::new();
    for at in 0..5 {
        let answer = read_server_hello(&mut received, &bytes[at..at + 1], &catalog);
        assert!(matches!(answer, Answer::More));
    }
    let answer = read_server_hello(&mut received, &bytes[5..6], &catalog);
    assert_eq!(transient(answer), "no ServerHello in response");
    let mut received = Vec::new();
    let answer = read_server_hello(&mut received, &bytes, &catalog);
    assert_eq!(transient(answer), "no ServerHello in response");
}

#[test]
fn malformed_records_fail_alike_however_they_are_cut() {
    let catalog = catalog(&[0x009c]);
    let bytes = [0x16, 3, 3, 0, 4, 0xee, 0, 0, 0, 1, 2, 3];
    let mut received = Vec::new();
    let whole = transient(read_server_hello(&mut received, &bytes, &catalog));
    let mut received = Vec::new();
    assert!(matches!(read_server_hello(&mut received, &bytes[..8], &catalog), Answer::More));
    let cut = transient(read_server_hello(&mut received, &bytes[8..9], &catalog));
    assert!(whole.starts_with("parse error: "));
    assert_eq!(whole, cut);
}
