//! Reading the server's answer to a client hello.
//!
//! The answer is read record by record: bytes are gathered until they hold a first record, and that
//! record decides. An alert is a refusal, a server hello names the suite that the server picked.

use vstd::prelude::*;

use crate::retry;
use crate::retry::RetryError;
use crate::tls::cipher_suite;
use crate::tls::cipher_suite::Catalog;
use crate::tls::CipherSuite;
use crate::wire;

verus! {

/// The type of an alert record.
pub const ALERT: u8 = 0x15;

/// The type of a handshake record.
pub const HANDSHAKE: u8 = 0x16;

/// The type of a server hello among the handshake messages.
pub const SERVER_HELLO: u8 = 0x02;

/// The longest record that is read.
pub const MAX_RECORD_LEN: u16 = 16_640;

/// What the bytes received so far hold.
#[derive(Debug)]
pub enum Record {
    /// A record of the type `kind`, with one item for each of its messages: the code of the suite
    /// for a server hello, nothing for another message.
    Complete { kind: u8, messages: Vec<Option<u16>> },
    /// The beginning of a record.
    Incomplete,
    /// No record, and why.
    Malformed(String),
}

impl View for Record {
    type V = Result<(u8, Seq<Option<u16>>), Option<Seq<char>>>;

    open spec fn view(&self) -> Result<(u8, Seq<Option<u16>>), Option<Seq<char>>> {
        match self {
            Record::Complete { kind, messages } => Ok((*kind, messages@)),
            Record::Incomplete => Err(None),
            Record::Malformed(why) => Err(Some(why@)),
        }
    }
}

/// What `tls_parser::parse_tls_plaintext` finds in `bytes`: the type of the record and, for each of
/// its messages, the suite's code if it is a server hello; or an error, without a text if bytes are
/// missing.
pub uninterp spec fn tls_plaintext(bytes: Seq<u8>) -> Result<
    (u8, Seq<Option<u16>>),
    Option<Seq<char>>,
>;

/// A record of type `kind` with one message.
pub open spec fn single(kind: u8, message: Option<u16>) -> Result<
    (u8, Seq<Option<u16>>),
    Option<Seq<char>>,
> {
    Ok((kind, seq![message]))
}

/// The number in two bytes, the high-order byte first.
pub open spec fn u16_at(bytes: Seq<u8>, at: int) -> int {
    bytes[at] * 256 + bytes[at + 1]
}

/// Whether `bytes` is a proper beginning of a record that is not too long.
pub open spec fn lacks_bytes(bytes: Seq<u8>) -> bool {
    bytes.len() < 5 || u16_at(bytes, 3) <= MAX_RECORD_LEN && bytes.len() < 5 + u16_at(bytes, 3)
}

/// Whether `bytes` begins with a complete record that is not too long.
pub open spec fn holds_record(bytes: Seq<u8>) -> bool {
    &&& 5 <= bytes.len()
    &&& u16_at(bytes, 3) <= MAX_RECORD_LEN
    &&& 5 + u16_at(bytes, 3) <= bytes.len()
}

/// The first record of `bytes`.
pub open spec fn first_record(bytes: Seq<u8>) -> Seq<u8> {
    bytes.take(5 + u16_at(bytes, 3))
}

/// Whether `bytes` begins with a record that is too long.
pub open spec fn is_overlong(bytes: Seq<u8>) -> bool {
    5 <= bytes.len() && u16_at(bytes, 3) > MAX_RECORD_LEN
}

/// Whether `bytes` begins with a record that holds one alert.
pub open spec fn holds_alert(bytes: Seq<u8>) -> bool {
    bytes.len() >= 7 && bytes[0] == ALERT && u16_at(bytes, 3) == 2
}

/// The length of the first message of a handshake record.
pub open spec fn message_len(bytes: Seq<u8>) -> int {
    bytes[6] * 65536 + u16_at(bytes, 7)
}

/// Whether `bytes` begins with a record whose first message is a server hello that picks the suite
/// `code`. Other messages may follow in the record.
pub open spec fn holds_server_hello(bytes: Seq<u8>, code: u16) -> bool {
    let len = u16_at(bytes, 3);
    let session = bytes[43] as int;
    &&& 47 <= bytes.len()
    &&& bytes[0] == HANDSHAKE
    &&& len <= MAX_RECORD_LEN
    &&& 5 + len <= bytes.len()
    &&& bytes[5] == SERVER_HELLO
    &&& 38 + session <= message_len(bytes) <= len - 4
    &&& 0x0300 <= u16_at(bytes, 9) <= 0x0303
    &&& session <= 32
    &&& u16_at(bytes, 44 + session) == code
}

/// Whether the first message of a handshake record fills the record.
pub open spec fn is_sole_message(bytes: Seq<u8>) -> bool {
    message_len(bytes) == u16_at(bytes, 3) - 4
}

/// `tls_parser::parse_tls_plaintext`, with each message of the record turned into the code of the
/// suite that it picks, if it is a server hello, and its errors turned into texts.
///
/// Its result is a function of the bytes, and where they begin with a complete record, of that
/// record alone. It asks for more bytes while the header or the body of a record is not complete,
/// refuses a record that is too long, keeps the type byte of the record that it reads, and reads a
/// record with a single alert as such. Where a record begins with a server hello of SSL 3.0 to TLS
/// 1.2 (TLS 1.3 uses the number of TLS 1.2), that is its first message, whatever follows in the
/// record, and its only one if it fills the record.
#[verifier::external_body]
fn parse_plaintext(bytes: &[u8]) -> (r: Record)
    ensures
        r@ == tls_plaintext(bytes@),
        holds_record(bytes@) ==> r@ == tls_plaintext(first_record(bytes@)),
        lacks_bytes(bytes@) ==> r is Incomplete,
        is_overlong(bytes@) ==> r is Malformed,
        r is Complete ==> r->kind == bytes@[0],
        holds_alert(bytes@) ==> r@ == single(ALERT, None),
        forall|code: u16| #[trigger]
            holds_server_hello(bytes@, code) ==> r is Complete && r->messages@.len() > 0
                && r->messages@[0] == Some(code),
        forall|code: u16| #[trigger]
            holds_server_hello(bytes@, code) && is_sole_message(bytes@) ==> r@ == single(
                HANDSHAKE,
                Some(code),
            ),
{
    match tls_parser::parse_tls_plaintext(bytes) {
        Ok((_, record)) => Record::Complete {
            kind: record.hdr.record_type.0,
            messages: record.msg.iter().map(
                |m| match m {
                    tls_parser::TlsMessage::Handshake(
                        tls_parser::TlsMessageHandshake::ServerHello(hello),
                    ) => Some(hello.cipher.0),
                    _ => None,
                },
            ).collect(),
        },
        Err(tls_parser::nom::Err::Incomplete(_)) => Record::Incomplete,
        Err(e) => Record::Malformed(e.to_string()),
    }
}

/// What has come of reading.
#[derive(Debug)]
pub enum Answer<'a> {
    /// More bytes are needed.
    More,
    /// The server has picked a suite.
    Picked(&'a CipherSuite),
    /// The attempt has failed.
    Failed(RetryError),
}

/// Whether a message picks a suite of the catalog.
pub open spec fn picks_known(suites: Seq<CipherSuite>, message: Option<u16>) -> bool {
    message is Some && exists|i: int|
        0 <= i < suites.len() && (#[trigger] suites[i]).code == message->0
}

/// Whether the first of the messages that picks a suite of the catalog picks `suite`.
pub open spec fn first_pick(
    suites: Seq<CipherSuite>,
    messages: Seq<Option<u16>>,
    suite: CipherSuite,
) -> bool {
    exists|i: int|
        0 <= i < messages.len() && #[trigger] messages[i] == Some(suite.code) && suites.contains(suite)
            && forall|j: int| 0 <= j < i ==> !picks_known(suites, #[trigger] messages[j])
}

/// Whether `answer` is what a record that was parsed to `record` means.
pub open spec fn answers(
    suites: Seq<CipherSuite>,
    record: Result<(u8, Seq<Option<u16>>), Option<Seq<char>>>,
    answer: Answer,
) -> bool {
    match record {
        Err(None) => answer is More,
        Err(Some(why)) => answer matches Answer::Failed(e) && e@ == retry::Failure::Transient(
            "parse error: "@ + why,
        ),
        Ok((kind, messages)) => if kind == ALERT {
            answer matches Answer::Failed(e) && e@ == retry::Failure::Definitive(
                "server sent alert"@,
            )
        } else {
            match answer {
                Answer::More => false,
                Answer::Picked(suite) => first_pick(suites, messages, *suite),
                Answer::Failed(e) => e@ == retry::Failure::Transient("no ServerHello in response"@)
                    && forall|j: int|
                    0 <= j < messages.len() ==> !picks_known(suites, #[trigger] messages[j]),
            }
        },
    }
}

/// Says what a record means.
pub fn judge<'a>(record: Record, catalog: &'a Catalog) -> (answer: Answer<'a>)
    ensures
        answers(catalog@, record@, answer),
{
    let (kind, messages) = match record {
        Record::Incomplete => {
            return Answer::More;
        },
        Record::Malformed(why) => {
            let mut text = String::from_str("parse error: ");
            text.append(why.as_str());
            return Answer::Failed(RetryError::Transient(text));
        },
        Record::Complete { kind, messages } => (kind, messages),
    };
    if kind == ALERT {
        return Answer::Failed(RetryError::Definitive(String::from_str("server sent alert")));
    }
    let mut i: usize = 0;
    while i < messages.len()
        invariant
            i <= messages@.len(),
            forall|j: int| 0 <= j < i ==> !picks_known(catalog@, #[trigger] messages@[j]),
            kind != ALERT,
            record@ == Ok::<_, Option<Seq<char>>>((kind, messages@)),
        decreases messages@.len() - i,
    {
        if let Some(code) = messages[i] {
            if let Some(suite) = cipher_suite::by_code(catalog, code) {
                assert(messages@[i as int] == Some(suite.code));
                return Answer::Picked(suite);
            }
        }
        i = i + 1;
    }
    Answer::Failed(RetryError::Transient(String::from_str("no ServerHello in response")))
}

proof fn first_server_hello_is_picked(
    suites: Seq<CipherSuite>,
    messages: Seq<Option<u16>>,
    code: u16,
    answer: Answer,
)
    requires
        answers(suites, Ok((HANDSHAKE, messages)), answer),
        messages.len() > 0,
        messages[0] == Some(code),
        picks_known(suites, Some(code)),
    ensures
        answer matches Answer::Picked(suite) && suite.code == code && suites.contains(*suite),
{
    let record: Result<(u8, Seq<Option<u16>>), Option<Seq<char>>> = Ok((HANDSHAKE, messages));
    assert(picks_known(suites, record->Ok_0.1[0]));
}

/// Whether `answer` is the pick of a server hello at the beginning of `bytes`, if there is one and
/// it picks a suite of the catalog. One that picks another suite and stands alone is none.
pub open spec fn follows_server_hello(
    bytes: Seq<u8>,
    suites: Seq<CipherSuite>,
    answer: Answer,
) -> bool {
    &&& forall|code: u16| #[trigger]
        holds_server_hello(bytes, code) && picks_known(suites, Some(code)) ==> (
        answer matches Answer::Picked(suite) && suite.code == code && suites.contains(*suite))
    &&& forall|code: u16| #[trigger]
        holds_server_hello(bytes, code) && is_sole_message(bytes) && !picks_known(
            suites,
            Some(code),
        ) ==> (answer matches Answer::Failed(e) && e@ == retry::Failure::Transient(
            "no ServerHello in response"@,
        ))
}

/// Takes in the next bytes of the server's answer; none mean that the server has closed the
/// connection.
pub fn read_server_hello<'a>(
    received: &mut Vec<u8>,
    chunk: &[u8],
    catalog: &'a Catalog,
) -> (answer: Answer<'a>)
    ensures
        final(received)@ == old(received)@ + chunk@,
        chunk@.len() == 0 ==> (answer matches Answer::Failed(e) && e@ == retry::Failure::Transient(
            "server closed connection"@,
        )),
        chunk@.len() > 0 ==> answers(catalog@, tls_plaintext(final(received)@), answer),
        chunk@.len() > 0 && holds_record(final(received)@) ==> answers(
            catalog@,
            tls_plaintext(first_record(final(received)@)),
            answer,
        ),
        chunk@.len() > 0 && lacks_bytes(final(received)@) ==> answer is More,
        chunk@.len() > 0 && is_overlong(final(received)@) ==> (answer matches Answer::Failed(e)
            && e@ is Transient),
        chunk@.len() > 0 && holds_alert(final(received)@) ==> (answer matches Answer::Failed(e)
            && e@ is Definitive),
        chunk@.len() > 0 && holds_alert(final(received)@) ==> (answer matches Answer::Failed(e)
            && e@ == retry::Failure::Definitive("server sent alert"@)),
        forall|code: u16|
            chunk@.len() > 0 && #[trigger] holds_server_hello(final(received)@, code)
                && picks_known(catalog@, Some(code)) ==> (answer matches Answer::Picked(suite)
                && suite.code == code && catalog@.contains(*suite)),
        chunk@.len() > 0 ==> follows_server_hello(final(received)@, catalog@, answer),
        answer matches Answer::Picked(suite) ==> catalog@.contains(*suite),
{
    if chunk.len() == 0 {
        assert(received@ =~= old(received)@ + chunk@);
        return Answer::Failed(
            RetryError::Transient(String::from_str("server closed connection")),
        );
    }
    received.extend_from_slice(chunk);
    assert(received@ =~= old(received)@ + chunk@);
    let record = parse_plaintext(received.as_slice());
    let answer = judge(record, catalog);
    proof {
        assert forall|code: u16| #[trigger]
            holds_server_hello(received@, code) && picks_known(
                catalog@,
                Some(code),
            ) implies (answer matches Answer::Picked(suite) && suite.code == code
            && catalog@.contains(*suite)) by {
            first_server_hello_is_picked(catalog@, record->messages@, code, answer);
        }
    }
    answer
}

/// The message of a server hello: its version, random, session id and suite, no compression, and
/// whatever follows.
pub open spec fn server_hello_message(
    version: u16,
    random: Seq<u8>,
    session_id: Seq<u8>,
    code: u16,
    rest: Seq<u8>,
) -> Seq<u8> {
    let body = wire::be16(version as int) + random + seq![session_id.len() as u8] + session_id
        + wire::be16(code as int) + seq![0x00u8] + rest;
    seq![SERVER_HELLO] + wire::be24(body.len() as int) + body
}

/// A handshake record with these messages.
pub open spec fn handshake_record(messages: Seq<u8>) -> Seq<u8> {
    seq![HANDSHAKE] + wire::be16(0x0303) + wire::be16(messages.len() as int) + messages
}

/// Every server hello of SSL 3.0 to TLS 1.2 that fits into a record is read as one that picks its
/// suite, whatever follows it in the record and behind the record. Those of TLS 1.3 carry the
/// number of TLS 1.2.
pub proof fn server_hellos_are_understood(
    version: u16,
    random: Seq<u8>,
    session_id: Seq<u8>,
    code: u16,
    rest: Seq<u8>,
    others: Seq<u8>,
    behind: Seq<u8>,
)
    requires
        0x0300 <= version <= 0x0303,
        random.len() == 32,
        session_id.len() <= 32,
        rest.len() + others.len() <= MAX_RECORD_LEN - 42 - session_id.len(),
    ensures
        ({
            let message = server_hello_message(version, random, session_id, code, rest);
            let bytes = handshake_record(message + others) + behind;
            &&& holds_server_hello(bytes, code)
            &&& is_sole_message(bytes) <==> others.len() == 0
        }),
{
    let body = wire::be16(version as int) + random + seq![session_id.len() as u8] + session_id
        + wire::be16(code as int) + seq![0x00u8] + rest;
    let message = server_hello_message(version, random, session_id, code, rest);
    let bytes = handshake_record(message + others) + behind;
    let session = session_id.len() as int;
    let n = body.len() as int;
    let len = n + 4 + others.len();
    assert(n == 38 + session + rest.len());
    assert(message.len() == 4 + n);
    assert(forall|i: int| 0 <= i < n ==> message[4 + i] == body[i]);
    assert(forall|i: int| 0 <= i < message.len() ==> bytes[5 + i] == message[i]);
    assert(message[0] == SERVER_HELLO);
    assert(message[1] == 0 && message[2] == (n / 256) as u8 && message[3] == (n % 256) as u8);
    assert(bytes[5] == message[0] && bytes[6] == message[1] && bytes[7] == message[2] && bytes[8]
        == message[3]);
    assert(message[38] == body[34] && bytes[43] == message[38]);
    assert(body[34] == session);
    assert(body[0] == wire::be16(version as int)[0] && body[1] == wire::be16(version as int)[1]);
    assert(message[4] == body[0] && message[5] == body[1]);
    assert(bytes[9] == message[4] && bytes[10] == message[5]);
    assert(body[35 + session] == wire::be16(code as int)[0]);
    assert(body[36 + session] == wire::be16(code as int)[1]);
    assert(message[4 + (35 + session)] == body[35 + session]);
    assert(message[4 + (36 + session)] == body[36 + session]);
    assert(bytes[5 + (39 + session)] == message[39 + session]);
    assert(bytes[5 + (40 + session)] == message[40 + session]);
    assert(bytes[3] == (len / 256) as u8 && bytes[4] == (len % 256) as u8);
}

/// However an answer is cut into pieces, pieces decide nothing until its first record is complete,
/// and from then on that record is what decides.
pub proof fn cuts_do_not_matter(bytes: Seq<u8>, taken: int)
    requires
        0 <= taken <= bytes.len(),
        holds_record(bytes),
    ensures
        taken < first_record(bytes).len() ==> lacks_bytes(bytes.take(taken)),
        taken >= first_record(bytes).len() ==> holds_record(bytes.take(taken)) && first_record(
            bytes.take(taken),
        ) == first_record(bytes),
{
    if taken >= first_record(bytes).len() {
        assert(first_record(bytes.take(taken)) =~= first_record(bytes));
    }
}

/// A record decides: it means one answer and no other.
pub proof fn records_mean_one_answer(
    suites: Seq<CipherSuite>,
    record: Result<(u8, Seq<Option<u16>>), Option<Seq<char>>>,
    a: Answer,
    b: Answer,
)
    requires
        cipher_suite::ascending(suites),
        answers(suites, record, a),
        answers(suites, record, b),
    ensures
        a is More <==> b is More,
        a matches Answer::Picked(suite) ==> (b matches Answer::Picked(other) && *other == *suite),
        a matches Answer::Failed(e) ==> (b matches Answer::Failed(f) && f@ == e@),
{
    if let Ok((kind, messages)) = record {
        if kind != ALERT {
            match (a, b) {
                (Answer::Picked(x), Answer::Picked(y)) => {
                    same_first_pick(suites, messages, *x, *y);
                },
                (Answer::Picked(x), Answer::Failed(_)) => {
                    first_pick_is_known(suites, messages, *x);
                },
                (Answer::Failed(_), Answer::Picked(y)) => {
                    first_pick_is_known(suites, messages, *y);
                },
                _ => {},
            }
        }
    }
}

proof fn first_pick_is_known(
    suites: Seq<CipherSuite>,
    messages: Seq<Option<u16>>,
    suite: CipherSuite,
)
    requires
        first_pick(suites, messages, suite),
    ensures
        exists|i: int| 0 <= i < messages.len() && picks_known(suites, #[trigger] messages[i]),
{
    let i = choose|i: int|
        0 <= i < messages.len() && #[trigger] messages[i] == Some(suite.code) && suites.contains(
            suite,
        ) && forall|j: int| 0 <= j < i ==> !picks_known(suites, #[trigger] messages[j]);
    let k = choose|k: int| 0 <= k < suites.len() && suites[k] == suite;
    assert(suites[k].code == suite.code);
    assert(picks_known(suites, messages[i]));
}

proof fn same_first_pick(
    suites: Seq<CipherSuite>,
    messages: Seq<Option<u16>>,
    x: CipherSuite,
    y: CipherSuite,
)
    requires
        cipher_suite::ascending(suites),
        first_pick(suites, messages, x),
        first_pick(suites, messages, y),
    ensures
        x == y,
{
    let i = choose|i: int|
        0 <= i < messages.len() && #[trigger] messages[i] == Some(x.code) && suites.contains(x)
            && forall|j: int| 0 <= j < i ==> !picks_known(suites, #[trigger] messages[j]);
    let j = choose|j: int|
        0 <= j < messages.len() && #[trigger] messages[j] == Some(y.code) && suites.contains(y)
            && forall|k: int| 0 <= k < j ==> !picks_known(suites, #[trigger] messages[k]);
    let a = choose|a: int| 0 <= a < suites.len() && suites[a] == x;
    let b = choose|b: int| 0 <= b < suites.len() && suites[b] == y;
    assert(suites[a].code == x.code && suites[b].code == y.code);
    assert(picks_known(suites, messages[i]) && picks_known(suites, messages[j]));
    assert(i == j);
    if a < b {
        assert(suites[a].code < suites[b].code);
    } else if b < a {
        assert(suites[b].code < suites[a].code);
    }
}

/// The first record of an answer is a server hello or an alert exactly if the answer begins with
/// one.
pub proof fn first_records_keep_their_meaning(bytes: Seq<u8>, code: u16)
    requires
        holds_record(bytes),
    ensures
        holds_server_hello(first_record(bytes), code) <==> holds_server_hello(bytes, code),
        holds_alert(first_record(bytes)) <==> holds_alert(bytes),
{
}

} // verus!
