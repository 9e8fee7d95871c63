//! Promises about reading the server's answer.

use vstd::prelude::*;

use crate::retry::RetryError;
use crate::tls::cipher_suite::Catalog;
use crate::tls::serverhello;
use crate::tls::serverhello::{Answer, Record};
use crate::tls::CipherSuite;

verus! {

/// Whether a suite of the catalog has this code.
pub open spec fn is_known(suites: Seq<CipherSuite>, code: u16) -> bool {
    exists|k: int| 0 <= k < suites.len() && (#[trigger] suites[k]).code == code
}

/// Whether a message picks a suite of the catalog.
pub open spec fn picks(suites: Seq<CipherSuite>, message: Option<u16>) -> bool {
    message matches Some(code) && is_known(suites, code)
}

/// Whether `suite` is what the first message picks that picks a suite of the catalog.
pub open spec fn is_first_pick(
    suites: Seq<CipherSuite>,
    messages: Seq<Option<u16>>,
    suite: CipherSuite,
) -> bool {
    exists|i: int|
        {
            &&& 0 <= i < messages.len()
            &&& #[trigger] messages[i] == Some(suite.code)
            &&& suites.contains(suite)
            &&& forall|j: int| 0 <= j < i ==> !picks(suites, #[trigger] messages[j])
        }
}

proof fn same_picks(suites: Seq<CipherSuite>, message: Option<u16>)
    ensures
        serverhello::picks_known(suites, message) <==> picks(suites, message),
{
}

proof fn same_first_pick(
    suites: Seq<CipherSuite>,
    messages: Seq<Option<u16>>,
    suite: CipherSuite,
)
    requires
        serverhello::first_pick(suites, messages, suite),
    ensures
        is_first_pick(suites, messages, suite),
{
    let i = choose|i: int|
        0 <= i < messages.len() && #[trigger] messages[i] == Some(suite.code) && suites.contains(
            suite,
        ) && forall|j: int|
            0 <= j < i ==> !serverhello::picks_known(suites, #[trigger] messages[j]);
    assert forall|j: int| 0 <= j < i implies !picks(suites, #[trigger] messages[j]) by {
        same_picks(suites, messages[j]);
    }
    assert(messages[i] == Some(suite.code));
}

/// Whether `answer` is what a record means: a record that is not complete asks for more, one that
/// cannot be read may be read another time, an alert is a refusal, and else the first message that
/// picks a suite of the catalog decides.
pub open spec fn is_meant(suites: Seq<CipherSuite>, record: Record, answer: Answer) -> bool {
    match record {
        Record::Incomplete => answer is More,
        Record::Malformed(why) => answer matches Answer::Failed(RetryError::Transient(text))
            && text@ == "parse error: "@ + why@,
        Record::Complete { kind, messages } => if kind == 0x15 {
            answer matches Answer::Failed(RetryError::Definitive(text)) && text@
                == "server sent alert"@
        } else if exists|i: int|
            0 <= i < messages@.len() && picks(suites, #[trigger] messages@[i]) {
            answer matches Answer::Picked(suite) && is_first_pick(suites, messages@, *suite)
        } else {
            answer matches Answer::Failed(RetryError::Transient(text)) && text@
                == "no ServerHello in response"@
        },
    }
}

proof fn meaning(suites: Seq<CipherSuite>, record: Record, answer: Answer)
    requires
        serverhello::answers(suites, record@, answer),
    ensures
        is_meant(suites, record, answer),
{
    if let Record::Complete { kind, messages } = record {
        assert(record@ == Ok::<(u8, Seq<Option<u16>>), Option<Seq<char>>>((kind, messages@)));
        if kind != 0x15 {
            if exists|i: int| 0 <= i < messages@.len() && picks(suites, #[trigger] messages@[i]) {
                let i = choose|i: int|
                    0 <= i < messages@.len() && picks(suites, #[trigger] messages@[i]);
                same_picks(suites, messages@[i]);
                assert(serverhello::picks_known(suites, (record@->Ok_0).1[i]));
                if let Answer::Picked(suite) = answer {
                    same_first_pick(suites, messages@, *suite);
                }
            } else {
                if let Answer::Picked(suite) = answer {
                    same_first_pick(suites, messages@, *suite);
                    let i = choose|i: int|
                        {
                            &&& 0 <= i < messages@.len()
                            &&& #[trigger] messages@[i] == Some(suite.code)
                            &&& suites.contains(*suite)
                        };
                    let k = choose|k: int| 0 <= k < suites.len() && suites[k] == *suite;
                    assert(suites[k].code == suite.code);
                    assert(picks(suites, messages@[i]));
                }
            }
        }
    }
}

/// Each record means what it should.
pub proof fn records_mean_what_they_should(record: Record, catalog: &Catalog, answer: Answer)
    requires
        call_ensures(serverhello::judge, (record, catalog), answer),
    ensures
        is_meant(catalog@, record, answer),
{
    meaning(catalog@, record, answer);
}

/// Each chunk is answered by what the bytes received so far mean, as they are parsed.
pub proof fn chunks_mean_what_they_hold(
    received: &mut Vec<u8>,
    chunk: &[u8],
    catalog: &Catalog,
    answer: Answer,
    record: Record,
)
    requires
        call_ensures(serverhello::read_server_hello, (received, chunk, catalog), answer),
        chunk@.len() > 0,
        record@ == serverhello::tls_plaintext(final(received)@),
    ensures
        is_meant(catalog@, record, answer),
{
    meaning(catalog@, record, answer);
}

/// Once the first record is complete, it decides, whatever follows it.
pub proof fn first_records_decide(
    received: &mut Vec<u8>,
    chunk: &[u8],
    catalog: &Catalog,
    answer: Answer,
    record: Record,
)
    requires
        call_ensures(serverhello::read_server_hello, (received, chunk, catalog), answer),
        chunk@.len() > 0,
        final(received)@.len() >= 5,
        final(received)@[3] * 256 + final(received)@[4] <= 16640,
        final(received)@.len() >= 5 + final(received)@[3] * 256 + final(received)@[4],
        record@ == serverhello::tls_plaintext(
            final(received)@.take(5 + final(received)@[3] * 256 + final(received)@[4]),
        ),
    ensures
        is_meant(catalog@, record, answer),
{
    let b = final(received)@;
    assert(5 + serverhello::u16_at(b, 3) == 5 + b[3] * 256 + b[4]);
    meaning(catalog@, record, answer);
}

/// A chunk is added to what was received. No bytes mean that the server has closed the connection,
/// which may pass. A record that is not complete asks for more, and one that is too long may pass.
pub proof fn chunks_are_gathered(
    received: &mut Vec<u8>,
    chunk: &[u8],
    catalog: &Catalog,
    answer: Answer,
)
    requires
        call_ensures(serverhello::read_server_hello, (received, chunk, catalog), answer),
    ensures
        final(received)@ == old(received)@ + chunk@,
        chunk@.len() == 0 ==> (answer matches Answer::Failed(RetryError::Transient(text)) && text@
            == "server closed connection"@),
        ({
            let b = final(received)@;
            chunk@.len() > 0 && (b.len() < 5 || b[3] * 256 + b[4] <= 16640 && b.len() < 5 + b[3]
                * 256 + b[4]) ==> answer is More
        }),
        ({
            let b = final(received)@;
            chunk@.len() > 0 && b.len() >= 5 && b[3] * 256 + b[4] > 16640 ==> (
            answer matches Answer::Failed(RetryError::Transient(text)))
        }),
{
}

/// A record with an alert is a refusal: no other attempt is worth it.
pub proof fn alerts_are_refusals(
    received: &mut Vec<u8>,
    chunk: &[u8],
    catalog: &Catalog,
    answer: Answer,
)
    requires
        call_ensures(serverhello::read_server_hello, (received, chunk, catalog), answer),
        chunk@.len() > 0,
        final(received)@.len() >= 7,
        final(received)@[0] == 0x15,
        final(received)@[3] == 0,
        final(received)@[4] == 2,
    ensures
        answer matches Answer::Failed(RetryError::Definitive(text)) && text@
            == "server sent alert"@,
{
    assert(serverhello::holds_alert(final(received)@));
}

/// A server hello of SSL 3.0 to TLS 1.2, at the beginning of a complete record, picks the suite that
/// it names, if the catalog has it. If the catalog does not and nothing follows in the record, then
/// there is no server hello, which may pass.
pub proof fn server_hellos_pick_their_suite(
    received: &mut Vec<u8>,
    chunk: &[u8],
    catalog: &Catalog,
    answer: Answer,
    code: u16,
)
    requires
        call_ensures(serverhello::read_server_hello, (received, chunk, catalog), answer),
        chunk@.len() > 0,
        ({
            let b = final(received)@;
            let len = b[3] * 256 + b[4];
            let n = b[6] * 65536 + b[7] * 256 + b[8];
            let s = b[43] as int;
            &&& b.len() >= 47
            &&& b[0] == 0x16
            &&& len <= 16640
            &&& b.len() >= 5 + len
            &&& b[5] == 0x02
            &&& 38 + s <= n <= len - 4
            &&& b[9] == 0x03 && b[10] <= 0x03
            &&& s <= 32
            &&& b[44 + s] * 256 + b[45 + s] == code
        }),
    ensures
        is_known(catalog@, code) ==> (answer matches Answer::Picked(suite) && suite.code == code
            && catalog@.contains(*suite)),
        !is_known(catalog@, code) && final(received)@[6] * 65536 + final(received)@[7] * 256
            + final(received)@[8] == final(received)@[3] * 256 + final(received)@[4] - 4 ==> (
        answer matches Answer::Failed(RetryError::Transient(text)) && text@
            == "no ServerHello in response"@),
{
    assert(serverhello::holds_server_hello(final(received)@, code));
    same_picks(catalog@, Some(code));
}

} // verus!
