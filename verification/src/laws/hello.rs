//! Promises about protocol versions and ClientHello messages.

use vstd::prelude::*;

use crate::tls::clienthello;
use crate::tls::clienthello::{Extensions, HelloError, TLSClientHello};
use crate::tls::TlsVersion;
use crate::wire;

verus! {

/// Each version is shown under its own name.
pub proof fn versions_are_named(v: TlsVersion, name: &'static str)
    requires
        call_ensures(TlsVersion::name, (v,), name),
    ensures
        v == TlsVersion::Ssl20 ==> name@ == "SSL 2.0"@,
        v == TlsVersion::Ssl30 ==> name@ == "SSL 3.0"@,
        v == TlsVersion::Tls10 ==> name@ == "TLS 1.0"@,
        v == TlsVersion::Tls11 ==> name@ == "TLS 1.1"@,
        v == TlsVersion::Tls12 ==> name@ == "TLS 1.2"@,
        v == TlsVersion::Tls13 ==> name@ == "TLS 1.3"@,
{
}

/// Each version has its own number, and a hello announces it by that number; only TLS 1.3 is
/// announced as TLS 1.2.
pub proof fn versions_are_numbered(v: TlsVersion, number: u16, announced: u16)
    requires
        call_ensures(TlsVersion::wire, (v,), number),
        call_ensures(TlsVersion::legacy_wire, (v,), announced),
    ensures
        v == TlsVersion::Ssl20 ==> number == 0x0200,
        v == TlsVersion::Ssl30 ==> number == 0x0300,
        v == TlsVersion::Tls10 ==> number == 0x0301,
        v == TlsVersion::Tls11 ==> number == 0x0302,
        v == TlsVersion::Tls12 ==> number == 0x0303,
        v == TlsVersion::Tls13 ==> number == 0x0304,
        v != TlsVersion::Tls13 ==> announced == number,
        v == TlsVersion::Tls13 ==> announced == 0x0303,
{
}

/// All versions are listed oldest first, and those from TLS 1.0 on are probed newest first.
pub proof fn versions_are_listed(all: [TlsVersion; 6], probed: Vec<TlsVersion>)
    requires
        call_ensures(TlsVersion::all, (), all),
        call_ensures(TlsVersion::probe_order, (), probed),
    ensures
        all@ == seq![
            TlsVersion::Ssl20,
            TlsVersion::Ssl30,
            TlsVersion::Tls10,
            TlsVersion::Tls11,
            TlsVersion::Tls12,
            TlsVersion::Tls13,
        ],
        probed@ == seq![TlsVersion::Tls13, TlsVersion::Tls12, TlsVersion::Tls11, TlsVersion::Tls10],
{
}

/// A number takes two bytes, the high-order byte first, behind what was there.
pub proof fn numbers_are_appended(buf: &mut Vec<u8>, n: u16)
    requires
        call_ensures(wire::put_u16, (buf, n), ()),
    ensures
        final(buf)@.len() == old(buf)@.len() + 2,
        final(buf)@.take(old(buf)@.len() as int) == old(buf)@,
        final(buf)@[old(buf)@.len() as int] * 256 + final(buf)@[old(buf)@.len() as int + 1] == n,
{
    assert(final(buf)@.take(old(buf)@.len() as int) =~= old(buf)@);
}

/// Bytes are appended as they are.
pub proof fn bytes_are_appended(buf: &mut Vec<u8>, bytes: &[u8])
    requires
        call_ensures(wire::put_bytes, (buf, bytes), ()),
    ensures
        final(buf)@.len() == old(buf)@.len() + bytes@.len(),
        final(buf)@.take(old(buf)@.len() as int) == old(buf)@,
        final(buf)@.skip(old(buf)@.len() as int) == bytes@,
{
    assert(final(buf)@.take(old(buf)@.len() as int) =~= old(buf)@);
    assert(final(buf)@.skip(old(buf)@.len() as int) =~= bytes@);
}

/// Codes are appended in order, two bytes each.
pub proof fn codes_are_appended(buf: &mut Vec<u8>, codes: &[u16])
    requires
        call_ensures(wire::put_u16_list, (buf, codes), ()),
    ensures
        final(buf)@.len() == old(buf)@.len() + 2 * codes@.len(),
        final(buf)@.take(old(buf)@.len() as int) == old(buf)@,
        forall|i: int|
            0 <= i < codes@.len() ==> final(buf)@[old(buf)@.len() + 2 * i] * 256
                + final(buf)@[old(buf)@.len() + 2 * i + 1] == #[trigger] codes@[i],
{
    let list = wire::be16_list(codes@);
    let at = old(buf)@.len() as int;
    assert(final(buf)@.take(at) =~= old(buf)@);
    assert forall|i: int| 0 <= i < codes@.len() implies final(buf)@[at + 2 * i] * 256
        + final(buf)@[at + 2 * i + 1] == #[trigger] codes@[i] by {
        assert(final(buf)@[at + 2 * i] == list[2 * i]);
        assert(final(buf)@[at + 2 * i + 1] == list[2 * i + 1]);
        assert((2 * i) / 2 == i && (2 * i) % 2 == 0 && (2 * i + 1) / 2 == i && (2 * i + 1) % 2 == 1);
    }
}

/// A block gets its length in front, in two bytes; of a longer length they are the low-order bytes.
pub proof fn blocks_are_counted<E, F: FnOnce(&mut Vec<u8>) -> Result<(), E>>(
    buf: &mut Vec<u8>,
    f: F,
    block: Seq<u8>,
)
    requires
        call_ensures(wire::with_u16_length::<E, F>, (buf, f), Ok::<(), E>(())),
        forall|b: &mut Vec<u8>| #[trigger]
            call_ensures(f, (b,), Ok::<(), E>(())) ==> final(b)@ == b@ + block,
    ensures
        final(buf)@ == old(buf)@ + seq![
            (block.len() / 256 % 256) as u8,
            (block.len() % 256) as u8,
        ] + block,
{
    let at = old(buf)@.len() as int;
    let b = choose|b: &mut Vec<u8>|
        {
            &&& b@ == old(buf)@ + wire::be16(0)
            &&& #[trigger] call_ensures(f, (b,), Ok::<(), E>(()))
            &&& final(buf)@ == wire::patched(final(b)@, at, final(b)@.len() - at - 2)
        };
    assert(final(b)@.len() == at + 2 + block.len());
    assert(final(buf)@ =~= old(buf)@ + seq![
        (block.len() / 256 % 256) as u8,
        (block.len() % 256) as u8,
    ] + block);
}

/// A type, a length and data, as an extension has them.
pub open spec fn typed(kind: int, data: Seq<u8>) -> Seq<u8> {
    seq![
        (kind / 256) as u8,
        (kind % 256) as u8,
        (data.len() / 256 % 256) as u8,
        (data.len() % 256) as u8,
    ] + data
}

/// The data of a server name extension for a name of these bytes.
pub open spec fn name_data(host: Seq<u8>) -> Seq<u8> {
    seq![
        ((host.len() + 3) / 256 % 256) as u8,
        ((host.len() + 3) % 256) as u8,
        0u8,
        (host.len() / 256 % 256) as u8,
        (host.len() % 256) as u8,
    ] + host
}

/// The data of an extension that lists the groups.
pub open spec fn group_data() -> Seq<u8> {
    seq![
        0u8, 20u8, 0x00u8, 0x1du8, 0x00u8, 0x17u8, 0x00u8, 0x18u8, 0x00u8, 0x19u8, 0x00u8, 0x1eu8,
        0x01u8, 0x00u8, 0x01u8, 0x01u8, 0x01u8, 0x02u8, 0x01u8, 0x03u8, 0x01u8, 0x04u8,
    ]
}

/// The data of an extension that lists the signature algorithms.
pub open spec fn algorithm_data() -> Seq<u8> {
    seq![
        0u8, 40u8, 0x08u8, 0x04u8, 0x08u8, 0x05u8, 0x08u8, 0x06u8, 0x04u8, 0x03u8, 0x05u8, 0x03u8,
        0x06u8, 0x03u8, 0x08u8, 0x07u8, 0x08u8, 0x08u8, 0x08u8, 0x09u8, 0x08u8, 0x0au8, 0x08u8,
        0x0bu8, 0x04u8, 0x01u8, 0x05u8, 0x01u8, 0x06u8, 0x01u8, 0x08u8, 0x1au8, 0x08u8, 0x1bu8,
        0x08u8, 0x1cu8, 0x02u8, 0x01u8, 0x02u8, 0x03u8, 0x02u8, 0x02u8,
    ]
}

/// The data of an extension that shares an x25519 key.
pub open spec fn key_data(key: Seq<u8>) -> Seq<u8> {
    seq![0u8, 36u8, 0x00u8, 0x1du8, 0u8, 32u8] + key
}

proof fn extension_forms(ext: Extensions<'_>)
    ensures
        ext.model().encoding() == typed(ext.model().kind as int, ext.model().data),
        ext matches Extensions::ServerName(host) ==> ext.model().kind == 0x0000
            && ext.model().data == name_data(vstd::utf8::encode_utf8(host@)),
        ext is StatusRequest ==> ext.model().kind == 0x0005 && ext.model().data == seq![
            1u8,
            0u8,
            0u8,
            0u8,
            0u8,
        ],
        ext is EcPointFormats ==> ext.model().kind == 0x000b && ext.model().data == seq![1u8, 0u8],
        ext is EncryptThenMac ==> ext.model().kind == 0x0016 && ext.model().data
            == Seq::<u8>::empty(),
        ext is ExtendedMasterSecret ==> ext.model().kind == 0x0017 && ext.model().data
            == Seq::<u8>::empty(),
        ext is SessionTicket ==> ext.model().kind == 0x0023 && ext.model().data
            == Seq::<u8>::empty(),
        ext is SupportedVersions13 ==> ext.model().kind == 0x002b && ext.model().data == seq![
            2u8,
            3u8,
            4u8,
        ],
        ext is PskKeyExchangeModes ==> ext.model().kind == 0x002d && ext.model().data == seq![
            1u8,
            1u8,
        ],
        ext matches Extensions::KeyShare(key) ==> ext.model().kind == 0x0033 && ext.model().data
            == key_data(key@),
        ext is RenegotiationInfo ==> ext.model().kind == 0xff01 && ext.model().data == seq![0u8],
{
    assert(ext.model().encoding() =~= typed(ext.model().kind as int, ext.model().data));
    match ext {
        Extensions::ServerName(host) => {
            assert(ext.model().data =~= name_data(vstd::utf8::encode_utf8(host@)));
        },
        Extensions::StatusRequest => {
            assert(ext.model().data =~= seq![1u8, 0u8, 0u8, 0u8, 0u8]);
        },
        Extensions::SupportedVersions13 => {
            assert(ext.model().data =~= seq![2u8, 3u8, 4u8]);
        },
        Extensions::KeyShare(key) => {
            assert(ext.model().data =~= key_data(key@));
        },
        _ => {},
    }
}

proof fn list_forms()
    ensures
        clienthello::supported_groups().kind == 0x000a,
        clienthello::supported_groups().data == group_data(),
        clienthello::signature_algorithms().kind == 0x000d,
        clienthello::signature_algorithms().data == algorithm_data(),
{
    assert(clienthello::supported_groups().data =~= group_data());
    assert(clienthello::signature_algorithms().data =~= algorithm_data());
}

/// Each extension is appended as its type, its length and its data.
pub proof fn extensions_are_written(ext: Extensions<'_>, buf: &mut Vec<u8>)
    requires
        call_ensures(Extensions::write_to, (&ext, buf), Ok::<(), HelloError>(())),
    ensures
        match ext {
            Extensions::ServerName(host) => final(buf)@ == old(buf)@ + typed(
                0x0000,
                name_data(vstd::utf8::encode_utf8(host@)),
            ),
            Extensions::StatusRequest => final(buf)@ == old(buf)@ + typed(
                0x0005,
                seq![1u8, 0u8, 0u8, 0u8, 0u8],
            ),
            Extensions::SupportedGroups => final(buf)@ == old(buf)@ + typed(0x000a, group_data()),
            Extensions::EcPointFormats => final(buf)@ == old(buf)@ + typed(
                0x000b,
                seq![1u8, 0u8],
            ),
            Extensions::SignatureAlgorithms => final(buf)@ == old(buf)@ + typed(
                0x000d,
                algorithm_data(),
            ),
            Extensions::EncryptThenMac => final(buf)@ == old(buf)@ + typed(0x0016, seq![]),
            Extensions::ExtendedMasterSecret => final(buf)@ == old(buf)@ + typed(0x0017, seq![]),
            Extensions::SessionTicket => final(buf)@ == old(buf)@ + typed(0x0023, seq![]),
            Extensions::SupportedVersions13 => final(buf)@ == old(buf)@ + typed(
                0x002b,
                seq![2u8, 3u8, 4u8],
            ),
            Extensions::PskKeyExchangeModes => final(buf)@ == old(buf)@ + typed(
                0x002d,
                seq![1u8, 1u8],
            ),
            Extensions::KeyShare(key) => final(buf)@ == old(buf)@ + typed(0x0033, key_data(key@)),
            Extensions::RenegotiationInfo => final(buf)@ == old(buf)@ + typed(0xff01, seq![0u8]),
        },
{
    extension_forms(ext);
    list_forms();
}

/// The extensions of a hello, in order.
pub open spec fn extension_block(sni: Seq<u8>, v: TlsVersion, key: Seq<u8>) -> Seq<u8> {
    typed(0x0000, name_data(sni)) + typed(0x0017, seq![]) + typed(0xff01, seq![0u8]) + typed(
        0x000a,
        group_data(),
    ) + typed(0x0005, seq![1u8, 0u8, 0u8, 0u8, 0u8]) + if v == TlsVersion::Tls13 {
        typed(0x000d, algorithm_data()) + typed(0x002b, seq![2u8, 3u8, 4u8]) + typed(
            0x002d,
            seq![1u8, 1u8],
        ) + typed(0x0033, key_data(key))
    } else if v == TlsVersion::Tls12 {
        typed(0x000b, seq![1u8, 0u8]) + typed(0x0016, seq![]) + typed(0x0023, seq![]) + typed(
            0x000d,
            algorithm_data(),
        )
    } else {
        typed(0x000b, seq![1u8, 0u8]) + typed(0x0023, seq![])
    }
}

proof fn common_extensions(hello: clienthello::HelloModel, all: Seq<clienthello::ExtensionModel>)
    requires
        all.len() >= 5,
        all.take(5) == hello.extensions().take(5),
    ensures
        clienthello::extension_bytes(all.take(5)) == typed(
            0x0000,
            name_data(vstd::utf8::encode_utf8(hello.sni)),
        ) + typed(0x0017, seq![]) + typed(0xff01, seq![0u8]) + typed(0x000a, group_data()) + typed(
            0x0005,
            seq![1u8, 0u8, 0u8, 0u8, 0u8],
        ),
{
    let five = all.take(5);
    list_forms();
    extension_forms(Extensions::StatusRequest);
    extension_forms(Extensions::SupportedGroups);
    extension_forms(Extensions::RenegotiationInfo);
    extension_forms(Extensions::ExtendedMasterSecret);
    name_form(hello.sni);
    assert(five[0] == hello.extensions().take(5)[0]);
    assert(five[1] == hello.extensions().take(5)[1]);
    assert(five[2] == hello.extensions().take(5)[2]);
    assert(five[3] == hello.extensions().take(5)[3]);
    assert(five[4] == hello.extensions().take(5)[4]);
    reveal_with_fuel(clienthello::extension_bytes, 6);
    assert(five.drop_last().drop_last().drop_last().drop_last().drop_last() =~= seq![]);
    assert(clienthello::extension_bytes(five) =~= typed(
        0x0000,
        name_data(vstd::utf8::encode_utf8(hello.sni)),
    ) + typed(0x0017, seq![]) + typed(0xff01, seq![0u8]) + typed(0x000a, group_data()) + typed(
        0x0005,
        seq![1u8, 0u8, 0u8, 0u8, 0u8],
    ));
}

proof fn name_form(sni: Seq<char>)
    ensures
        clienthello::server_name(vstd::utf8::encode_utf8(sni)).encoding() == typed(
            0x0000,
            name_data(vstd::utf8::encode_utf8(sni)),
        ),
{
    assert(clienthello::server_name(vstd::utf8::encode_utf8(sni)).encoding() =~= typed(
        0x0000,
        name_data(vstd::utf8::encode_utf8(sni)),
    ));
}

proof fn key_form(key: Seq<u8>)
    requires
        key.len() == 32,
    ensures
        clienthello::key_share(key).encoding() == typed(0x0033, key_data(key)),
{
    assert(clienthello::key_share(key).encoding() =~= typed(0x0033, key_data(key)));
}

proof fn joined_extensions(
    a: Seq<clienthello::ExtensionModel>,
    b: Seq<clienthello::ExtensionModel>,
)
    ensures
        clienthello::extension_bytes(a + b) == clienthello::extension_bytes(a)
            + clienthello::extension_bytes(b),
    decreases b.len(),
{
    if b.len() == 0 {
        assert(a + b =~= a);
        assert(clienthello::extension_bytes(a + b) =~= clienthello::extension_bytes(a)
            + clienthello::extension_bytes(b));
    } else {
        assert((a + b).drop_last() =~= a + b.drop_last());
        joined_extensions(a, b.drop_last());
        assert(clienthello::extension_bytes(a + b) =~= clienthello::extension_bytes(a)
            + clienthello::extension_bytes(b));
    }
}

proof fn own_extensions(hello: clienthello::HelloModel, own: Seq<clienthello::ExtensionModel>)
    requires
        own == hello.extensions().skip(5),
        hello.version == TlsVersion::Tls13 ==> hello.key is Some && hello.key->0.len() == 32,
    ensures
        hello.version == TlsVersion::Tls13 ==> clienthello::extension_bytes(own) == typed(
            0x000d,
            algorithm_data(),
        ) + typed(0x002b, seq![2u8, 3u8, 4u8]) + typed(0x002d, seq![1u8, 1u8]) + typed(
            0x0033,
            key_data(hello.key->0),
        ),
        hello.version == TlsVersion::Tls12 ==> clienthello::extension_bytes(own) == typed(
            0x000b,
            seq![1u8, 0u8],
        ) + typed(0x0016, seq![]) + typed(0x0023, seq![]) + typed(0x000d, algorithm_data()),
        hello.version != TlsVersion::Tls13 && hello.version != TlsVersion::Tls12
            ==> clienthello::extension_bytes(own) == typed(0x000b, seq![1u8, 0u8]) + typed(
            0x0023,
            seq![],
        ),
{
    list_forms();
    extension_forms(Extensions::SignatureAlgorithms);
    extension_forms(Extensions::SupportedVersions13);
    extension_forms(Extensions::PskKeyExchangeModes);
    extension_forms(Extensions::EcPointFormats);
    extension_forms(Extensions::EncryptThenMac);
    extension_forms(Extensions::SessionTicket);
    reveal_with_fuel(clienthello::extension_bytes, 6);
    let all = hello.extensions();
    assert(own[0] == all[5]);
    assert(own[1] == all[6]);
    if hello.version == TlsVersion::Tls13 {
        key_form(hello.key->0);
        assert(own[2] == all[7] && own[3] == all[8]);
        assert(own.drop_last().drop_last().drop_last().drop_last() =~= seq![]);
        assert(clienthello::extension_bytes(own) =~= typed(0x000d, algorithm_data()) + typed(
            0x002b,
            seq![2u8, 3u8, 4u8],
        ) + typed(0x002d, seq![1u8, 1u8]) + typed(0x0033, key_data(hello.key->0)));
    } else if hello.version == TlsVersion::Tls12 {
        assert(own[2] == all[7] && own[3] == all[8]);
        assert(own.drop_last().drop_last().drop_last().drop_last() =~= seq![]);
        assert(clienthello::extension_bytes(own) =~= typed(0x000b, seq![1u8, 0u8]) + typed(
            0x0016,
            seq![],
        ) + typed(0x0023, seq![]) + typed(0x000d, algorithm_data()));
    } else {
        assert(own.drop_last().drop_last() =~= seq![]);
        assert(clienthello::extension_bytes(own) =~= typed(0x000b, seq![1u8, 0u8]) + typed(
            0x0023,
            seq![],
        ));
    }
}

proof fn all_extensions(hello: clienthello::HelloModel)
    requires
        hello.version == TlsVersion::Tls13 ==> hello.key is Some && hello.key->0.len() == 32,
    ensures
        clienthello::extension_bytes(hello.extensions()) == extension_block(
            vstd::utf8::encode_utf8(hello.sni),
            hello.version,
            hello.key->0,
        ),
{
    let all = hello.extensions();
    common_extensions(hello, all);
    own_extensions(hello, all.skip(5));
    joined_extensions(all.take(5), all.skip(5));
    assert(all =~= all.take(5) + all.skip(5));
}

/// Where each part of a hello's record stands, and what it holds; `block` are the extensions. Length
/// fields count what follows them as far as their bytes reach.
pub open spec fn has_hello_parts(
    p: Seq<u8>,
    v: TlsVersion,
    ciphers: Seq<u16>,
    random: Seq<u8>,
    id: Seq<u8>,
    block: Seq<u8>,
) -> bool {
    let n = ciphers.len() as int;
    let s: int = if v == TlsVersion::Tls13 {
        76
    } else {
        44
    };
    let e = s + 4 + 2 * n;
    &&& p.len() >= e + 2
    &&& p[0] == 0x16 && p[1] == 0x03 && p[2] == 0x01
    &&& p.len() - 5 < 0x10000 ==> p[3] * 256 + p[4] == p.len() - 5
    &&& p[5] == 0x01
    &&& p.len() - 9 < 0x1000000 ==> p[6] * 65536 + p[7] * 256 + p[8] == p.len() - 9
    &&& v == TlsVersion::Tls13 ==> p[9] == 0x03 && p[10] == 0x03
    &&& v == TlsVersion::Tls12 ==> p[9] == 0x03 && p[10] == 0x03
    &&& v == TlsVersion::Tls11 ==> p[9] == 0x03 && p[10] == 0x02
    &&& v == TlsVersion::Tls10 ==> p[9] == 0x03 && p[10] == 0x01
    &&& v == TlsVersion::Ssl30 ==> p[9] == 0x03 && p[10] == 0x00
    &&& v == TlsVersion::Ssl20 ==> p[9] == 0x02 && p[10] == 0x00
    &&& p.subrange(11, 43) == random
    &&& v == TlsVersion::Tls13 ==> p[43] == 32 && p.subrange(44, 76) == id
    &&& v != TlsVersion::Tls13 ==> p[43] == 0
    &&& 2 * n < 0x10000 ==> p[s] * 256 + p[s + 1] == 2 * n
    &&& forall|i: int|
        0 <= i < n ==> p[s + 2 + 2 * i] * 256 + p[s + 3 + 2 * i] == #[trigger] ciphers[i]
    &&& p[e - 2] == 1 && p[e - 1] == 0
    &&& p.len() - e - 2 < 0x10000 ==> p[e] * 256 + p[e + 1] == p.len() - e - 2
    &&& p.skip(e + 2) == block
}

/// Whether `p` is the record of a hello.
pub open spec fn is_hello_record(
    p: Seq<u8>,
    sni: Seq<char>,
    v: TlsVersion,
    ciphers: Seq<u16>,
    random: Seq<u8>,
    id: Seq<u8>,
    key: Seq<u8>,
) -> bool {
    has_hello_parts(
        p,
        v,
        ciphers,
        random,
        id,
        extension_block(vstd::utf8::encode_utf8(sni), v, key),
    )
}

#[verifier::opaque]
spec fn record_head(m: int, announced: int) -> Seq<u8> {
    seq![
        0x16u8,
        0x03u8,
        0x01u8,
        ((m + 4) / 256 % 256) as u8,
        ((m + 4) % 256) as u8,
        0x01u8,
        (m / 65536 % 256) as u8,
        (m / 256 % 256) as u8,
        (m % 256) as u8,
        (announced / 256 % 256) as u8,
        (announced % 256) as u8,
    ]
}

proof fn record_parts(hello: clienthello::HelloModel, random: Seq<u8>, id: Seq<u8>)
    ensures
        hello.record(random, id) == record_head(
            hello.body(random, id).len() as int,
            hello.version.legacy_number() as int,
        ) + random + hello.session_field(id) + wire::be16(
            wire::be16_list(hello.ciphers).len() as int,
        ) + wire::be16_list(hello.ciphers) + seq![0x01u8, 0x00u8] + wire::be16(
            clienthello::extension_bytes(hello.extensions()).len() as int,
        ) + clienthello::extension_bytes(hello.extensions()),
{
    let m = hello.body(random, id).len() as int;
    let announced = hello.version.legacy_number() as int;
    let list = wire::be16_list(hello.ciphers);
    let block = clienthello::extension_bytes(hello.extensions());
    let field = hello.session_field(id);
    let first = seq![0x16u8] + wire::be16(TlsVersion::Tls10.wire_number() as int) + wire::be16(
        m + 4,
    ) + seq![0x01u8] + wire::be24(m) + wire::be16(announced);
    reveal(record_head);
    assert(first =~= record_head(m, announced));
    assert(hello.record(random, id) =~= first + random + field + wire::be16(list.len() as int)
        + list + seq![0x01u8, 0x00u8] + wire::be16(block.len() as int) + block);
}

proof fn part_places(
    head: Seq<u8>,
    random: Seq<u8>,
    field: Seq<u8>,
    ciphers: Seq<u16>,
    block: Seq<u8>,
)
    requires
        head.len() == 11,
        random.len() == 32,
        field.len() >= 1,
    ensures
        ({
            let n = ciphers.len() as int;
            let list = wire::be16_list(ciphers);
            let p = head + random + field + wire::be16(list.len() as int) + list + seq![
                0x01u8,
                0x00u8,
            ] + wire::be16(block.len() as int) + block;
            let s = 43 + field.len() as int;
            let e = s + 4 + 2 * n;
            &&& p.len() == e + 2 + block.len()
            &&& forall|i: int| 0 <= i < 11 ==> p[i] == head[i]
            &&& p.subrange(11, 43) == random
            &&& p.subrange(43, s) == field
            &&& p[s] == wire::be16(2 * n)[0] && p[s + 1] == wire::be16(2 * n)[1]
            &&& forall|i: int|
                0 <= i < n ==> p[s + 2 + 2 * i] * 256 + p[s + 3 + 2 * i] == #[trigger] ciphers[i]
            &&& p[e - 2] == 1 && p[e - 1] == 0
            &&& p[e] == wire::be16(block.len() as int)[0]
            &&& p[e + 1] == wire::be16(block.len() as int)[1]
            &&& p.skip(e + 2) == block
        }),
{
    let n = ciphers.len() as int;
    let list = wire::be16_list(ciphers);
    let end = seq![0x01u8, 0x00u8];
    let lens = wire::be16(2 * n);
    let count = wire::be16(block.len() as int);
    let p = head + random + field + lens + list + end + count + block;
    let s = 43 + field.len() as int;
    let e = s + 4 + 2 * n;
    assert(p.subrange(11, 43) =~= random);
    assert(p.subrange(43, s) =~= field);
    assert forall|i: int| 0 <= i < n implies p[s + 2 + 2 * i] * 256 + p[s + 3 + 2 * i]
        == #[trigger] ciphers[i] by {
        assert(p[s + 2 + 2 * i] == list[2 * i]);
        assert(p[s + 3 + 2 * i] == list[2 * i + 1]);
        assert((2 * i) / 2 == i && (2 * i) % 2 == 0 && (2 * i + 1) / 2 == i && (2 * i + 1) % 2 == 1);
    }
    assert(p[e - 2] == end[0] && p[e - 1] == end[1]);
    assert(p[e] == count[0] && p[e + 1] == count[1]);
    assert(p.skip(e + 2) =~= block);
}

proof fn head_fields(m: int, announced: int)
    requires
        0 <= m,
        0 <= announced < 0x10000,
    ensures
        ({
            let head = record_head(m, announced);
            &&& head.len() == 11
            &&& head[0] == 0x16 && head[1] == 0x03 && head[2] == 0x01 && head[5] == 0x01
            &&& m + 4 < 0x10000 ==> head[3] * 256 + head[4] == m + 4
            &&& m < 0x1000000 ==> head[6] * 65536 + head[7] * 256 + head[8] == m
            &&& head[9] == announced / 256 && head[10] == announced % 256
        }),
{
    reveal(record_head);
}

proof fn length_fields(n: int)
    requires
        0 <= n,
    ensures
        n < 0x10000 ==> wire::be16(n)[0] * 256 + wire::be16(n)[1] == n,
{
}

proof fn places_make_hello(
    p: Seq<u8>,
    head: Seq<u8>,
    v: TlsVersion,
    ciphers: Seq<u16>,
    random: Seq<u8>,
    id: Seq<u8>,
    field: Seq<u8>,
    block: Seq<u8>,
)
    requires
        random.len() == 32,
        id.len() == 32,
        v == TlsVersion::Tls13 ==> field == seq![0x20u8] + id,
        v != TlsVersion::Tls13 ==> field == seq![0x00u8],
        head.len() == 11,
        head[0] == 0x16 && head[1] == 0x03 && head[2] == 0x01 && head[5] == 0x01,
        p.len() - 5 < 0x10000 ==> head[3] * 256 + head[4] == p.len() - 5,
        p.len() - 9 < 0x1000000 ==> head[6] * 65536 + head[7] * 256 + head[8] == p.len() - 9,
        v == TlsVersion::Tls13 || v == TlsVersion::Tls12 ==> head[9] == 3 && head[10] == 3,
        v == TlsVersion::Tls11 ==> head[9] == 3 && head[10] == 2,
        v == TlsVersion::Tls10 ==> head[9] == 3 && head[10] == 1,
        v == TlsVersion::Ssl30 ==> head[9] == 3 && head[10] == 0,
        v == TlsVersion::Ssl20 ==> head[9] == 2 && head[10] == 0,
        ({
            let n = ciphers.len() as int;
            let s = 43 + field.len() as int;
            let e = s + 4 + 2 * n;
            &&& p.len() == e + 2 + block.len()
            &&& forall|i: int| 0 <= i < 11 ==> p[i] == head[i]
            &&& p.subrange(11, 43) == random
            &&& p.subrange(43, s) == field
            &&& p[s] == wire::be16(2 * n)[0] && p[s + 1] == wire::be16(2 * n)[1]
            &&& forall|i: int|
                0 <= i < n ==> p[s + 2 + 2 * i] * 256 + p[s + 3 + 2 * i] == #[trigger] ciphers[i]
            &&& p[e - 2] == 1 && p[e - 1] == 0
            &&& p[e] == wire::be16(block.len() as int)[0]
            &&& p[e + 1] == wire::be16(block.len() as int)[1]
            &&& p.skip(e + 2) == block
        }),
    ensures
        has_hello_parts(p, v, ciphers, random, id, block),
{
    length_fields(2 * ciphers.len() as int);
    length_fields(block.len() as int);
    let s = 43 + field.len() as int;
    assert(p.subrange(43, s)[0] == field[0]);
    if v == TlsVersion::Tls13 {
        assert(p.subrange(44, 76) =~= p.subrange(43, s).skip(1));
        assert(field.skip(1) =~= id);
    }
}

proof fn parts_make_hello(
    m: int,
    v: TlsVersion,
    announced: int,
    ciphers: Seq<u16>,
    random: Seq<u8>,
    id: Seq<u8>,
    field: Seq<u8>,
    block: Seq<u8>,
)
    requires
        random.len() == 32,
        id.len() == 32,
        v == TlsVersion::Tls13 ==> field == seq![0x20u8] + id,
        v != TlsVersion::Tls13 ==> field == seq![0x00u8],
        m == 2 + 32 + field.len() + 2 + 2 * ciphers.len() + 2 + 2 + block.len(),
        v == TlsVersion::Tls13 || v == TlsVersion::Tls12 ==> announced == 0x0303,
        v == TlsVersion::Tls11 ==> announced == 0x0302,
        v == TlsVersion::Tls10 ==> announced == 0x0301,
        v == TlsVersion::Ssl30 ==> announced == 0x0300,
        v == TlsVersion::Ssl20 ==> announced == 0x0200,
    ensures
        has_hello_parts(
            record_head(m, announced) + random + field + wire::be16(
                wire::be16_list(ciphers).len() as int,
            ) + wire::be16_list(ciphers) + seq![0x01u8, 0x00u8] + wire::be16(block.len() as int)
                + block,
            v,
            ciphers,
            random,
            id,
            block,
        ),
{
    let head = record_head(m, announced);
    let p = head + random + field + wire::be16(wire::be16_list(ciphers).len() as int)
        + wire::be16_list(ciphers) + seq![0x01u8, 0x00u8] + wire::be16(block.len() as int) + block;
    head_fields(m, announced);
    part_places(head, random, field, ciphers, block);
    places_make_hello(p, head, v, ciphers, random, id, field, block);
}

proof fn body_length(hello: clienthello::HelloModel, random: Seq<u8>, id: Seq<u8>)
    requires
        random.len() == 32,
    ensures
        hello.body(random, id).len() == 2 + 32 + hello.session_field(id).len() + 2 + 2
            * hello.ciphers.len() + 2 + 2 + clienthello::extension_bytes(hello.extensions()).len(),
{
}

pub(crate) proof fn records_have_this_form(hello: clienthello::HelloModel, random: Seq<u8>, id: Seq<u8>)
    requires
        hello.version == TlsVersion::Tls13 ==> hello.key is Some && hello.key->0.len() == 32,
        random.len() == 32,
        id.len() == 32,
    ensures
        is_hello_record(
            hello.record(random, id),
            hello.sni,
            hello.version,
            hello.ciphers,
            random,
            id,
            hello.key->0,
        ),
{
    record_parts(hello, random, id);
    all_extensions(hello);
    body_length(hello, random, id);
    parts_make_hello(
        hello.body(random, id).len() as int,
        hello.version,
        hello.version.legacy_number() as int,
        hello.ciphers,
        random,
        id,
        hello.session_field(id),
        clienthello::extension_bytes(hello.extensions()),
    );
}

/// A hello carries what it was asked for: the version, the random and the session id, the offered
/// suites in order, and the extensions of its version for its server name.
pub proof fn hellos_carry_what_is_asked<'a>(
    sni: &'a str,
    v: TlsVersion,
    ciphers: &'a [u16],
    hello: TLSClientHello<'a>,
    random: &[u8; 32],
    id: &[u8; 32],
    payload: Vec<u8>,
)
    requires
        call_ensures(TLSClientHello::new, (sni, v, ciphers), hello),
        call_ensures(
            TLSClientHello::payload_with,
            (&hello, random, id),
            Ok::<Vec<u8>, HelloError>(payload),
        ),
    ensures
        is_hello_record(payload@, sni@, v, ciphers@, random@, id@, hello@.key->0),
        v == TlsVersion::Tls13 ==> hello@.key->0.len() == 32 && clienthello::is_drawn_key(
            hello@.key->0,
        ),
{
    records_have_this_form(hello@, random@, id@);
}

/// A hello that is built draws a session id for TLS 1.3, has a random of 32 times 0x42 unless a
/// fresh one was asked for, and then has the system's; in all else it carries what it was asked
/// for.
pub proof fn built_hellos_carry_what_is_asked<'a>(
    sni: &'a str,
    v: TlsVersion,
    ciphers: &'a [u16],
    hello: TLSClientHello<'a>,
    fresh: TLSClientHello<'a>,
    payload: Vec<u8>,
    other: Vec<u8>,
)
    requires
        call_ensures(TLSClientHello::new, (sni, v, ciphers), hello),
        call_ensures(
            TLSClientHello::build_tls_payload,
            (hello,),
            Ok::<Vec<u8>, HelloError>(payload),
        ),
        call_ensures(TLSClientHello::with_fresh_random, (hello,), fresh),
        call_ensures(
            TLSClientHello::build_tls_payload,
            (fresh,),
            Ok::<Vec<u8>, HelloError>(other),
        ),
    ensures
        exists|random: Seq<u8>, id: Seq<u8>|
            {
                &&& forall|i: int| 0 <= i < random.len() ==> random[i] == 0x42
                &&& v == TlsVersion::Tls13 ==> clienthello::is_drawn_id(id)
                &&& #[trigger] is_hello_record(
                    payload@,
                    sni@,
                    v,
                    ciphers@,
                    random,
                    id,
                    hello@.key->0,
                )
            },
        exists|random: Seq<u8>, id: Seq<u8>|
            {
                &&& clienthello::is_system_random(random)
                &&& v == TlsVersion::Tls13 ==> clienthello::is_drawn_id(id)
                &&& #[trigger] is_hello_record(
                    other@,
                    sni@,
                    v,
                    ciphers@,
                    random,
                    id,
                    hello@.key->0,
                )
            },
{
    let (random, id) = choose|random: Seq<u8>, id: Seq<u8>|
        {
            &&& random.len() == 32
            &&& id.len() == 32
            &&& random == clienthello::fixed_random()
            &&& v == TlsVersion::Tls13 ==> clienthello::is_drawn_id(id)
            &&& payload@ == #[trigger] hello@.record(random, id)
        };
    records_have_this_form(hello@, random, id);
    assert(forall|i: int| 0 <= i < random.len() ==> random[i] == 0x42);
    let (random, id) = choose|random: Seq<u8>, id: Seq<u8>|
        {
            &&& random.len() == 32
            &&& id.len() == 32
            &&& clienthello::is_system_random(random)
            &&& v == TlsVersion::Tls13 ==> clienthello::is_drawn_id(id)
            &&& other@ == #[trigger] fresh@.record(random, id)
        };
    records_have_this_form(fresh@, random, id);
}

/// A hello that draws no random can always be built, and so can every hello from given values.
pub proof fn hellos_can_be_built<'a>(
    hello: TLSClientHello<'a>,
    random: &[u8; 32],
    id: &[u8; 32],
    sni: &'a str,
    v: TlsVersion,
    ciphers: &'a [u16],
    built: Result<Vec<u8>, HelloError>,
    given: Result<Vec<u8>, HelloError>,
)
    requires
        call_ensures(TLSClientHello::new, (sni, v, ciphers), hello),
        call_ensures(TLSClientHello::build_tls_payload, (hello,), built),
        call_ensures(TLSClientHello::payload_with, (&hello, random, id), given),
    ensures
        built is Ok,
        given is Ok,
{
}

} // verus!
