//! ClientHello messages.

use vstd::prelude::*;

use crate::tls::TlsVersion;
use crate::wire;
use crate::wire::{put_bytes, put_u16, put_u16_list, with_u16_length};

verus! {

/// The named groups that every hello lists, most preferred first: x25519, secp256r1, secp384r1,
/// secp521r1, x448 and the five finite-field groups.
pub const GROUPS: [u16; 10] = [
    0x001d, 0x0017, 0x0018, 0x0019, 0x001e, 0x0100, 0x0101, 0x0102, 0x0103, 0x0104,
];

/// The signature schemes that a hello lists from TLS 1.2 on, most preferred first; the three SHA-1
/// schemes at the end are for old servers.
pub const SIG_ALGS: [u16; 20] = [
    0x0804, 0x0805, 0x0806, 0x0403, 0x0503, 0x0603, 0x0807, 0x0808, 0x0809, 0x080a, 0x080b, 0x0401,
    0x0501, 0x0601, 0x081a, 0x081b, 0x081c, 0x0201, 0x0203, 0x0202,
];

/// The code of the x25519 group.
pub const X25519: u16 = 0x001d;

/// Why no hello could be built.
#[derive(Debug)]
pub enum HelloError {
    /// The system gave no random bytes, for this reason.
    RandomUnavailable(String),
}

/// A hello extension.
pub enum Extensions<'a> {
    ServerName(&'a str),
    StatusRequest,
    SupportedGroups,
    EcPointFormats,
    SignatureAlgorithms,
    EncryptThenMac,
    ExtendedMasterSecret,
    SessionTicket,
    SupportedVersions13,
    PskKeyExchangeModes,
    KeyShare(&'a [u8; 32]),
    RenegotiationInfo,
}

/// What an extension is on the wire: its type and its data.
pub struct ExtensionModel {
    pub kind: u16,
    pub data: Seq<u8>,
}

impl ExtensionModel {
    /// The extension's bytes: type, length, data.
    pub open spec fn encoding(self) -> Seq<u8> {
        wire::be16(self.kind as int) + wire::u16_prefixed(self.data)
    }
}

pub open spec fn server_name(host: Seq<u8>) -> ExtensionModel {
    ExtensionModel { kind: 0x0000, data: wire::u16_prefixed(seq![0x00u8] + wire::u16_prefixed(host)) }
}

pub open spec fn status_request() -> ExtensionModel {
    ExtensionModel { kind: 0x0005, data: seq![0x01u8] + wire::be16(0) + wire::be16(0) }
}

pub open spec fn supported_groups() -> ExtensionModel {
    ExtensionModel { kind: 0x000a, data: wire::u16_prefixed(wire::be16_list(GROUPS@)) }
}

pub open spec fn ec_point_formats() -> ExtensionModel {
    ExtensionModel { kind: 0x000b, data: seq![0x01u8, 0x00u8] }
}

pub open spec fn signature_algorithms() -> ExtensionModel {
    ExtensionModel { kind: 0x000d, data: wire::u16_prefixed(wire::be16_list(SIG_ALGS@)) }
}

pub open spec fn encrypt_then_mac() -> ExtensionModel {
    ExtensionModel { kind: 0x0016, data: seq![] }
}

pub open spec fn extended_master_secret() -> ExtensionModel {
    ExtensionModel { kind: 0x0017, data: seq![] }
}

pub open spec fn session_ticket() -> ExtensionModel {
    ExtensionModel { kind: 0x0023, data: seq![] }
}

pub open spec fn supported_versions13() -> ExtensionModel {
    ExtensionModel { kind: 0x002b, data: seq![0x02u8] + wire::be16(0x0304) }
}

pub open spec fn psk_key_exchange_modes() -> ExtensionModel {
    ExtensionModel { kind: 0x002d, data: seq![0x01u8, 0x01u8] }
}

pub open spec fn key_share(key: Seq<u8>) -> ExtensionModel {
    ExtensionModel { kind: 0x0033, data: wire::u16_prefixed(wire::be16(X25519 as int) + wire::u16_prefixed(key)) }
}

pub open spec fn renegotiation_info() -> ExtensionModel {
    ExtensionModel { kind: 0xff01, data: seq![0x00u8] }
}

impl Extensions<'_> {
    /// What the extension is on the wire.
    pub open spec fn model(self) -> ExtensionModel {
        match self {
            Extensions::ServerName(host) => server_name(vstd::utf8::encode_utf8(host@)),
            Extensions::StatusRequest => status_request(),
            Extensions::SupportedGroups => supported_groups(),
            Extensions::EcPointFormats => ec_point_formats(),
            Extensions::SignatureAlgorithms => signature_algorithms(),
            Extensions::EncryptThenMac => encrypt_then_mac(),
            Extensions::ExtendedMasterSecret => extended_master_secret(),
            Extensions::SessionTicket => session_ticket(),
            Extensions::SupportedVersions13 => supported_versions13(),
            Extensions::PskKeyExchangeModes => psk_key_exchange_modes(),
            Extensions::KeyShare(key) => key_share(key@),
            Extensions::RenegotiationInfo => renegotiation_info(),
        }
    }

    /// Appends the extension's bytes.
    pub fn write_to(&self, buf: &mut Vec<u8>) -> (r: Result<(), HelloError>)
        ensures
            r is Ok,
            final(buf)@ == old(buf)@ + self.model().encoding(),
    {
        match self {
            Self::ServerName(host) => {
                // server_name (RFC 6066)
                put_u16(buf, 0x0000);
                with_u16_length(
                    buf,
                    |b: &mut Vec<u8>| -> (r: Result<(), HelloError>)
                        ensures
                            r is Ok,
                            final(b)@ =~= old(b)@ + wire::u16_prefixed(
                                seq![0x00u8] + wire::u16_prefixed(vstd::utf8::encode_utf8(host@)),
                            )
                        {
                            // server_name_list
                            with_u16_length(
                                b,
                                |b: &mut Vec<u8>| -> (r: Result<(), HelloError>)
                                    ensures
                                        r is Ok,
                                        final(b)@ =~= old(b)@ + (seq![0x00u8] + wire::u16_prefixed(
                                            vstd::utf8::encode_utf8(host@),
                                        ))
                                    {
                                        b.push(0x00);  // name_type = host_name
                                        with_u16_length(
                                            b,
                                            |b: &mut Vec<u8>| -> (r: Result<(), HelloError>)
                                                ensures
                                                    r is Ok,
                                                    final(b)@ =~= old(b)@ + vstd::utf8::encode_utf8(host@)
                                                {
                                                    put_bytes(b, host.as_bytes());
                                                    Ok(())
                                                },
                                        )
                                    },
                            )
                        },
                )
            },
            Self::StatusRequest => {
                // status_request (RFC 6066): OCSP stapling
                put_u16(buf, 0x0005);
                with_u16_length(
                    buf,
                    |b: &mut Vec<u8>| -> (r: Result<(), HelloError>)
                        ensures
                            r is Ok,
                            final(b)@ =~= old(b)@ + (seq![0x01u8] + wire::be16(0) + wire::be16(0))
                        {
                            b.push(0x01);  // status_type = ocsp
                            put_u16(b, 0);  // responder_id_list (empty)
                            put_u16(b, 0);  // request_extensions (empty)
                            Ok(())
                        },
                )
            },
            Self::SupportedGroups => {
                // supported_groups (RFC 8422, RFC 7919)
                put_u16(buf, 0x000a);
                with_u16_length(
                    buf,
                    |b: &mut Vec<u8>| -> (r: Result<(), HelloError>)
                        ensures
                            r is Ok,
                            final(b)@ =~= old(b)@ + wire::u16_prefixed(wire::be16_list(GROUPS@))
                        {
                            // named_group_list
                            with_u16_length(
                                b,
                                |b: &mut Vec<u8>| -> (r: Result<(), HelloError>)
                                    ensures
                                        r is Ok,
                                        final(b)@ =~= old(b)@ + wire::be16_list(GROUPS@)
                                    {
                                        put_u16_list(b, GROUPS.as_slice());
                                        Ok(())
                                    },
                            )
                        },
                )
            },
            Self::EcPointFormats => {
                // ec_point_formats (RFC 8422)
                put_u16(buf, 0x000b);
                with_u16_length(
                    buf,
                    |b: &mut Vec<u8>| -> (r: Result<(), HelloError>)
                        ensures
                            r is Ok,
                            final(b)@ =~= old(b)@ + seq![0x01u8, 0x00u8]
                        {
                            b.push(0x01);  // one format
                            b.push(0x00);  // uncompressed
                            Ok(())
                        },
                )
            },
            Self::SignatureAlgorithms => {
                // signature_algorithms (RFC 8446)
                put_u16(buf, 0x000d);
                with_u16_length(
                    buf,
                    |b: &mut Vec<u8>| -> (r: Result<(), HelloError>)
                        ensures
                            r is Ok,
                            final(b)@ =~= old(b)@ + wire::u16_prefixed(wire::be16_list(SIG_ALGS@))
                        {
                            // supported_signature_algorithms
                            with_u16_length(
                                b,
                                |b: &mut Vec<u8>| -> (r: Result<(), HelloError>)
                                    ensures
                                        r is Ok,
                                        final(b)@ =~= old(b)@ + wire::be16_list(SIG_ALGS@)
                                    {
                                        put_u16_list(b, SIG_ALGS.as_slice());
                                        Ok(())
                                    },
                            )
                        },
                )
            },
            Self::EncryptThenMac => {
                // encrypt_then_mac (RFC 7366): empty data
                put_u16(buf, 0x0016);
                put_u16(buf, 0);
                Ok(())
            },
            Self::ExtendedMasterSecret => {
                // extended_master_secret (RFC 7627): empty data
                put_u16(buf, 0x0017);
                put_u16(buf, 0);
                Ok(())
            },
            Self::SessionTicket => {
                // session_ticket (RFC 5077): empty data asks for a ticket
                put_u16(buf, 0x0023);
                put_u16(buf, 0);
                Ok(())
            },
            Self::SupportedVersions13 => {
                // supported_versions (RFC 8446)
                put_u16(buf, 0x002b);
                with_u16_length(
                    buf,
                    |b: &mut Vec<u8>| -> (r: Result<(), HelloError>)
                        ensures
                            r is Ok,
                            final(b)@ =~= old(b)@ + (seq![0x02u8] + wire::be16(0x0304))
                        {
                            b.push(0x02);  // two bytes follow
                            put_u16(b, 0x0304);  // TLS 1.3
                            Ok(())
                        },
                )
            },
            Self::PskKeyExchangeModes => {
                // psk_key_exchange_modes (RFC 8446)
                put_u16(buf, 0x002d);
                with_u16_length(
                    buf,
                    |b: &mut Vec<u8>| -> (r: Result<(), HelloError>)
                        ensures
                            r is Ok,
                            final(b)@ =~= old(b)@ + seq![0x01u8, 0x01u8]
                        {
                            b.push(0x01);  // one mode
                            b.push(0x01);  // psk_dhe_ke
                            Ok(())
                        },
                )
            },
            Self::KeyShare(key) => {
                // key_share (RFC 8446)
                put_u16(buf, 0x0033);
                with_u16_length(
                    buf,
                    |b: &mut Vec<u8>| -> (r: Result<(), HelloError>)
                        ensures
                            r is Ok,
                            final(b)@ =~= old(b)@ + wire::u16_prefixed(
                                wire::be16(X25519 as int) + wire::u16_prefixed(key@),
                            )
                        {
                            // client_shares
                            with_u16_length(
                                b,
                                |b: &mut Vec<u8>| -> (r: Result<(), HelloError>)
                                    ensures
                                        r is Ok,
                                        final(b)@ =~= old(b)@ + (wire::be16(X25519 as int)
                                            + wire::u16_prefixed(key@))
                                    {
                                        put_u16(b, X25519);
                                        with_u16_length(
                                            b,
                                            |b: &mut Vec<u8>| -> (r: Result<(), HelloError>)
                                                ensures
                                                    r is Ok,
                                                    final(b)@ =~= old(b)@ + key@
                                                {
                                                    put_bytes(b, key.as_slice());
                                                    Ok(())
                                                },
                                        )
                                    },
                            )
                        },
                )
            },
            Self::RenegotiationInfo => {
                // renegotiation_info (RFC 5746): empty in a first handshake
                put_u16(buf, 0xff01);
                with_u16_length(
                    buf,
                    |b: &mut Vec<u8>| -> (r: Result<(), HelloError>)
                        ensures
                            r is Ok,
                            final(b)@ =~= old(b)@ + seq![0x00u8]
                        {
                            b.push(0x00);
                            Ok(())
                        },
                )
            },
        }
    }
}

/// What a hello asks for, before its random parts are drawn.
pub struct HelloModel {
    /// The host name, which is also the server name that the hello asks for.
    pub sni: Seq<char>,
    pub version: TlsVersion,
    /// The cipher suites on offer.
    pub ciphers: Seq<u16>,
    /// The x25519 key share, for TLS 1.3 only.
    pub key: Option<Seq<u8>>,
    /// Whether the hello's random is drawn anew instead of being fixed.
    pub fresh_random: bool,
}

impl HelloModel {
    /// The extensions that the hello carries, in order.
    pub open spec fn extensions(self) -> Seq<ExtensionModel> {
        let common = seq![
            server_name(vstd::utf8::encode_utf8(self.sni)),
            extended_master_secret(),
            renegotiation_info(),
            supported_groups(),
            status_request(),
        ];
        common + match self.version {
            TlsVersion::Tls12 => seq![
                ec_point_formats(),
                encrypt_then_mac(),
                session_ticket(),
                signature_algorithms(),
            ],
            TlsVersion::Tls13 => seq![
                signature_algorithms(),
                supported_versions13(),
                psk_key_exchange_modes(),
                key_share(self.key->0),
            ],
            _ => seq![ec_point_formats(), session_ticket()],
        }
    }

    /// The session id field: 32 bytes for TLS 1.3, empty for older versions.
    pub open spec fn session_field(self, session_id: Seq<u8>) -> Seq<u8> {
        if self.version == TlsVersion::Tls13 {
            seq![0x20u8] + session_id
        } else {
            seq![0x00u8]
        }
    }

    /// The body of the ClientHello handshake message.
    pub open spec fn body(self, random: Seq<u8>, session_id: Seq<u8>) -> Seq<u8> {
        wire::be16(self.version.legacy_number() as int) + random + self.session_field(session_id)
            + wire::u16_prefixed(wire::be16_list(self.ciphers)) + seq![0x01u8, 0x00u8]
            + wire::u16_prefixed(extension_bytes(self.extensions()))
    }

    /// The whole record: record header, handshake header and body.
    pub open spec fn record(self, random: Seq<u8>, session_id: Seq<u8>) -> Seq<u8> {
        let body = self.body(random, session_id);
        seq![0x16u8] + wire::be16(TlsVersion::Tls10.wire_number() as int) + wire::be16(
            body.len() as int + 4,
        ) + seq![0x01u8] + wire::be24(body.len() as int) + body
    }
}

/// The bytes of `list`, one extension after the other.
pub open spec fn extension_bytes(list: Seq<ExtensionModel>) -> Seq<u8>
    decreases list.len(),
{
    if list.len() == 0 {
        seq![]
    } else {
        extension_bytes(list.drop_last()) + list.last().encoding()
    }
}

/// Writes `extension` behind the bytes of the extensions `done`, and adds it to them.
fn append_extension(
    extension: Extensions<'_>,
    b: &mut Vec<u8>,
    Ghost(start): Ghost<Seq<u8>>,
    Ghost(done): Ghost<Seq<ExtensionModel>>,
) -> (r: Result<Ghost<Seq<ExtensionModel>>, HelloError>)
    requires
        old(b)@ == start + extension_bytes(done),
    ensures
        r matches Ok(all) && all@ == done.push(extension.model()) && final(b)@ == start
            + extension_bytes(all@),
{
    extension.write_to(b)?;
    let ghost all = done.push(extension.model());
    assert(all.drop_last() =~= done);
    assert(b@ =~= start + extension_bytes(all));
    Ok(Ghost(all))
}

/// The random of a hello that draws none: 32 times the same byte.
pub open spec fn fixed_random() -> Seq<u8> {
    Seq::new(32, |i: int| 0x42u8)
}

/// The system's error for a failed random generation.
#[verifier::external_type_specification]
#[verifier::external_body]
pub struct ExErrorStack(openssl::error::ErrorStack);

/// Calls `openssl::rand::rand_bytes` on 32 bytes. The bytes differ from call to call, and the
/// system may have none to give, so nothing is claimed of the result.
#[verifier::external_body]
pub(crate) fn system_random() -> (r: Result<[u8; 32], openssl::error::ErrorStack>)
{
    let mut bytes = [0u8; 32];
    openssl::rand::rand_bytes(&mut bytes)?;
    Ok(bytes)
}

/// The text of an `openssl::error::ErrorStack`, by its `Display`. The errors in it are the system's,
/// so nothing is claimed of the text.
#[verifier::external_body]
pub(crate) fn error_text(error: &openssl::error::ErrorStack) -> (text: String)
{
    error.to_string()
}

/// Calls `rand::fill` on 32 bytes. The bytes differ from call to call, so nothing is claimed of
/// them.
#[verifier::external_body]
pub(crate) fn random_session_id() -> (id: [u8; 32])
{
    let mut id = [0u8; 32];
    rand::fill(&mut id);
    id
}

/// Draws a secret with `x25519_dalek::EphemeralSecret::random` and returns the bytes of its
/// `PublicKey`. The key differs from call to call, so nothing is claimed of it.
#[verifier::external_body]
pub(crate) fn ephemeral_public_key() -> (key: [u8; 32])
{
    let secret = x25519_dalek::EphemeralSecret::random();
    *x25519_dalek::PublicKey::from(&secret).as_bytes()
}

/// Whether `key` is a public key that was drawn.
pub closed spec fn is_drawn_key(key: Seq<u8>) -> bool {
    exists|drawn: [u8; 32]| #[trigger]
        call_ensures(ephemeral_public_key, (), drawn) && drawn@ == key
}

/// Whether `id` is a session id that was drawn.
pub closed spec fn is_drawn_id(id: Seq<u8>) -> bool {
    exists|drawn: [u8; 32]| #[trigger]
        call_ensures(random_session_id, (), drawn) && drawn@ == id
}

/// Whether `random` is what the system gave for a random.
pub closed spec fn is_system_random(random: Seq<u8>) -> bool {
    exists|drawn: [u8; 32]| #[trigger]
        call_ensures(
            system_random,
            (),
            Ok::<[u8; 32], openssl::error::ErrorStack>(drawn),
        ) && drawn@ == random
}

/// Whether `why` is the text of an error that the system gave for a random.
pub closed spec fn is_random_failure(why: String) -> bool {
    exists|e: openssl::error::ErrorStack|
        {
            &&& #[trigger] call_ensures(
                system_random,
                (),
                Err::<[u8; 32], openssl::error::ErrorStack>(e),
            )
            &&& call_ensures(error_text, (&e,), why)
        }
}

/// Calls `f`.
fn drawn<T, F: Fn() -> T>(f: F) -> (r: T)
    requires
        call_requires(f, ()),
    ensures
        call_ensures(f, (), r),
{
    f()
}

/// Calls `f` on an error.
fn text_of<F: Fn(&openssl::error::ErrorStack) -> String>(
    f: F,
    error: &openssl::error::ErrorStack,
) -> (r: String)
    requires
        call_requires(f, (error,)),
    ensures
        call_ensures(f, (error,), r),
{
    f(error)
}

/// A ClientHello that offers some cipher suites of one version to one server.
pub struct TLSClientHello<'a> {
    sni: &'a str,
    version: TlsVersion,
    ciphers: &'a [u16],
    pubkey: Option<[u8; 32]>,
    fresh_random: bool,
}

impl View for TLSClientHello<'_> {
    type V = HelloModel;

    closed spec fn view(&self) -> HelloModel {
        HelloModel {
            sni: self.sni@,
            version: self.version,
            ciphers: self.ciphers@,
            key: match self.pubkey {
                Some(key) => Some(key@),
                None => None,
            },
            fresh_random: self.fresh_random,
        }
    }
}

impl<'a> TLSClientHello<'a> {
    #[verifier::type_invariant]
    spec fn has_key_where_needed(self) -> bool {
        self.version == TlsVersion::Tls13 ==> self.pubkey is Some
    }

    /// Prepares a hello. One for TLS 1.3 gets a new key share. Its random is fixed; see
    /// [`TLSClientHello::with_fresh_random`].
    pub fn new(sni: &'a str, version: TlsVersion, ciphers: &'a [u16]) -> (hello: Self)
        ensures
            hello@.sni == sni@,
            hello@.version == version,
            hello@.ciphers == ciphers@,
            hello@.key is Some <==> version == TlsVersion::Tls13,
            hello@.key matches Some(key) ==> key.len() == 32 && is_drawn_key(key),
            !hello@.fresh_random,
    {
        let pubkey = match version {
            TlsVersion::Tls13 => Some(drawn(ephemeral_public_key)),
            _ => None,
        };
        TLSClientHello { sni, version, ciphers, pubkey, fresh_random: false }
    }

    /// Has the hello's random drawn anew when it is built.
    pub fn with_fresh_random(self) -> (hello: Self)
        ensures
            hello@ == (HelloModel { fresh_random: true, ..self@ }),
    {
        proof {
            use_type_invariant(&self);
        }
        TLSClientHello {
            sni: self.sni,
            version: self.version,
            ciphers: self.ciphers,
            pubkey: self.pubkey,
            fresh_random: true,
        }
    }

    /// Builds the record that carries the hello, and draws the random parts that it needs.
    pub fn build_tls_payload(self) -> (r: Result<Vec<u8>, HelloError>)
        ensures
            !self@.fresh_random ==> r is Ok,
            r matches Ok(payload) ==> exists|random: Seq<u8>, session_id: Seq<u8>|
                {
                    &&& random.len() == 32
                    &&& session_id.len() == 32
                    &&& !self@.fresh_random ==> random == fixed_random()
                    &&& self@.fresh_random ==> is_system_random(random)
                    &&& self@.version == TlsVersion::Tls13 ==> is_drawn_id(session_id)
                    &&& payload@ == #[trigger] self@.record(random, session_id)
                },
            r matches Err(HelloError::RandomUnavailable(why)) ==> is_random_failure(why),
    {
        let mut random = [0x42u8; 32];
        if self.fresh_random {
            random = match drawn(system_random) {
                Ok(bytes) => bytes,
                Err(e) => {
                    return Err(HelloError::RandomUnavailable(text_of(error_text, &e)));
                },
            };
        }
        let session_id = if self.version == TlsVersion::Tls13 {
            drawn(random_session_id)
        } else {
            [0u8; 32]
        };
        assert(!self.fresh_random ==> random@ =~= fixed_random());
        let payload = self.payload_with(&random, &session_id);
        assert(payload is Ok ==> payload->Ok_0@ == self@.record(random@, session_id@));
        payload
    }

    /// Builds the record that carries the hello, with the given random and session id. A session
    /// id is sent for TLS 1.3 only.
    pub fn payload_with(&self, random: &[u8; 32], session_id: &[u8; 32]) -> (r: Result<
        Vec<u8>,
        HelloError,
    >)
        ensures
            r matches Ok(payload) && payload@ == self@.record(random@, session_id@),
    {
        let mut payload: Vec<u8> = Vec::with_capacity(512);
        // record header
        payload.push(0x16);
        // the record's version is TLS 1.0 in every hello
        put_u16(&mut payload, TlsVersion::Tls10.wire());
        let record_len_offset: usize = payload.len();
        put_u16(&mut payload, 0);

        // handshake header
        payload.push(0x01);  // client_hello
        let handshake_len_offset: usize = payload.len();
        put_bytes(&mut payload, [0u8, 0u8, 0u8].as_slice());

        let body_start: usize = payload.len();
        let ghost header = payload@;
        match self.write_tls_body(&mut payload, random, session_id) {
            Ok(()) => {},
            Err(e) => {
                return Err(e);
            },
        }
        let body_len: usize = payload.len() - body_start;

        let record_len: usize = body_len + 4;
        payload[record_len_offset] = (record_len / 256 % 256) as u8;
        payload[record_len_offset + 1] = (record_len % 256) as u8;
        payload[handshake_len_offset] = (body_len / 65536 % 256) as u8;
        payload[handshake_len_offset + 1] = (body_len / 256 % 256) as u8;
        payload[handshake_len_offset + 2] = (body_len % 256) as u8;

        assert(payload@ =~= self@.record(random@, session_id@));
        Ok(payload)
    }

    fn write_tls_body(
        &self,
        payload: &mut Vec<u8>,
        random: &[u8; 32],
        session_id: &[u8; 32],
    ) -> (r: Result<(), HelloError>)
        ensures
            r is Ok,
            final(payload)@ == old(payload)@ + self@.body(random@, session_id@),
    {
        put_u16(payload, self.version.legacy_wire());
        put_bytes(payload, random.as_slice());

        if self.version == TlsVersion::Tls13 {
            payload.push(0x20);  // 32 bytes
            put_bytes(payload, session_id.as_slice());
        } else {
            payload.push(0x00);
        }
        self.write_suites(payload)?;

        // one compression method: none
        payload.push(0x01);
        payload.push(0x00);

        let r = self.write_extension_block(payload);
        assert(payload@ =~= old(payload)@ + self@.body(random@, session_id@));
        r
    }

    fn write_suites(&self, payload: &mut Vec<u8>) -> (r: Result<(), HelloError>)
        ensures
            r is Ok,
            final(payload)@ == old(payload)@ + wire::u16_prefixed(wire::be16_list(self@.ciphers)),
    {
        let r = with_u16_length(
            payload,
            |b: &mut Vec<u8>| -> (r: Result<(), HelloError>)
                ensures
                    r is Ok,
                    final(b)@ =~= old(b)@ + wire::be16_list(self.ciphers@)
                {
                    put_u16_list(b, self.ciphers);
                    Ok(())
                },
        );
        assert(payload@ =~= old(payload)@ + wire::u16_prefixed(wire::be16_list(self@.ciphers)));
        r
    }

    fn write_extension_block(&self, payload: &mut Vec<u8>) -> (r: Result<(), HelloError>)
        ensures
            r is Ok,
            final(payload)@ == old(payload)@ + wire::u16_prefixed(
                extension_bytes(self@.extensions()),
            ),
    {
        let r = with_u16_length(
            payload,
            |b: &mut Vec<u8>| -> (r: Result<(), HelloError>)
                ensures
                    r is Ok,
                    final(b)@ =~= old(b)@ + extension_bytes(self@.extensions())
                { self.write_extensions(b) },
        );
        assert(payload@ =~= old(payload)@ + wire::u16_prefixed(
            extension_bytes(self@.extensions()),
        ));
        r
    }

    fn write_extensions(&self, b: &mut Vec<u8>) -> (r: Result<(), HelloError>)
        ensures
            r is Ok,
            final(b)@ == old(b)@ + extension_bytes(self@.extensions()),
    {
        proof {
            use_type_invariant(self);
        }
        let ghost start = b@;
        let done = Ghost(Seq::<ExtensionModel>::empty());
        assert(b@ =~= start + extension_bytes(done@));
        let done = append_extension(Extensions::ServerName(self.sni), b, Ghost(start), done)?;
        let done = append_extension(Extensions::ExtendedMasterSecret, b, Ghost(start), done)?;
        let done = append_extension(Extensions::RenegotiationInfo, b, Ghost(start), done)?;
        let done = append_extension(Extensions::SupportedGroups, b, Ghost(start), done)?;
        let done = append_extension(Extensions::StatusRequest, b, Ghost(start), done)?;
        match self.version {
            TlsVersion::Tls12 => {
                let done = append_extension(Extensions::EcPointFormats, b, Ghost(start), done)?;
                let done = append_extension(Extensions::EncryptThenMac, b, Ghost(start), done)?;
                let done = append_extension(Extensions::SessionTicket, b, Ghost(start), done)?;
                let done = append_extension(Extensions::SignatureAlgorithms, b, Ghost(start), done)?;
                assert(done@ =~= self@.extensions());
            },
            TlsVersion::Tls13 => {
                let done = append_extension(Extensions::SignatureAlgorithms, b, Ghost(start), done)?;
                let done = append_extension(Extensions::SupportedVersions13, b, Ghost(start), done)?;
                let done = append_extension(Extensions::PskKeyExchangeModes, b, Ghost(start), done)?;
                if let Some(key) = &self.pubkey {
                    let done = append_extension(Extensions::KeyShare(key), b, Ghost(start), done)?;
                    assert(done@ =~= self@.extensions());
                }
            },
            _ => {
                // signature_algorithms starts with TLS 1.2
                let done = append_extension(Extensions::EcPointFormats, b, Ghost(start), done)?;
                let done = append_extension(Extensions::SessionTicket, b, Ghost(start), done)?;
                assert(done@ =~= self@.extensions());
            },
        }
        Ok(())
    }
}

/// Every hello travels in a handshake record whose version is TLS 1.0, whatever version it asks
/// for, and opens with the ClientHello message type.
pub proof fn hello_starts_a_tls10_record(hello: HelloModel, random: Seq<u8>, session_id: Seq<u8>)
    ensures
        hello.record(random, session_id).take(3) == seq![0x16u8, 0x03u8, 0x01u8],
        hello.record(random, session_id)[5] == 0x01,
{
    assert(hello.record(random, session_id).take(3) =~= seq![0x16u8, 0x03u8, 0x01u8]);
}

/// The record's two length fields count the bytes behind them, as long as the record's own fits in
/// 16 bits.
pub proof fn hello_lengths_are_exact(hello: HelloModel, random: Seq<u8>, session_id: Seq<u8>)
    requires
        hello.body(random, session_id).len() + 4 < 65536,
    ensures
        ({
            let record = hello.record(random, session_id);
            &&& record[3] * 256 + record[4] == record.len() - 5
            &&& record[6] * 65536 + record[7] * 256 + record[8] == record.len() - 9
        }),
{
    let n = hello.body(random, session_id).len() as int;
    assert(n / 65536 == 0);
    assert((n + 4) / 256 % 256 == (n + 4) / 256);
    assert(n / 256 % 256 == n / 256);
}

/// The offered cipher suites stand in the hello, all of them, in order, behind the version, the
/// random and the session id.
pub proof fn hello_sends_the_offered_suites(hello: HelloModel, random: Seq<u8>, session_id: Seq<u8>)
    requires
        random.len() == 32,
        session_id.len() == 32,
    ensures
        ({
            let record = hello.record(random, session_id);
            let start: int = if hello.version == TlsVersion::Tls13 {
                76
            } else {
                44
            };
            let n = hello.ciphers.len() as int;
            &&& record.len() >= start + 2 + 2 * n
            &&& record.subrange(start, start + 2) == wire::be16(2 * n)
            &&& forall|i: int|
                0 <= i < n ==> record[start + 2 + 2 * i] * 256 + record[start + 3 + 2 * i]
                    == #[trigger] hello.ciphers[i]
        }),
{
    let body = hello.body(random, session_id);
    let list = wire::be16_list(hello.ciphers);
    let tail = seq![0x01u8, 0x00u8] + wire::u16_prefixed(extension_bytes(hello.extensions()));
    let head = seq![0x16u8] + wire::be16(TlsVersion::Tls10.wire_number() as int) + wire::be16(
        body.len() as int + 4,
    ) + seq![0x01u8] + wire::be24(body.len() as int) + wire::be16(
        hello.version.legacy_number() as int,
    ) + random + hello.session_field(session_id);
    let n = hello.ciphers.len() as int;
    assert(list.len() == 2 * n);
    assert(hello.record(random, session_id) =~= head + wire::be16(2 * n) + list + tail);
    suites_stand_behind(head, hello.ciphers, tail);
}

proof fn suites_stand_behind(head: Seq<u8>, ciphers: Seq<u16>, tail: Seq<u8>)
    ensures
        ({
            let bytes = head + wire::be16(2 * ciphers.len() as int) + wire::be16_list(ciphers)
                + tail;
            let start = head.len() as int;
            &&& bytes.subrange(start, start + 2) == wire::be16(2 * ciphers.len() as int)
            &&& forall|i: int|
                0 <= i < ciphers.len() ==> bytes[start + 2 + 2 * i] * 256 + bytes[start + 3 + 2 * i]
                    == #[trigger] ciphers[i]
        }),
{
    let list = wire::be16_list(ciphers);
    let field = wire::be16(2 * ciphers.len() as int);
    let bytes = head + field + list + tail;
    let start = head.len() as int;
    assert(bytes.subrange(start, start + 2) =~= field);
    assert forall|i: int| 0 <= i < ciphers.len() implies bytes[start + 2 + 2 * i] * 256 + bytes[start
        + 3 + 2 * i] == #[trigger] ciphers[i] by {
        assert(bytes[start + 2 + 2 * i] == list[2 * i]);
        assert(bytes[start + 3 + 2 * i] == list[2 * i + 1]);
        assert((2 * i) / 2 == i && (2 * i) % 2 == 0 && (2 * i + 1) / 2 == i && (2 * i + 1) % 2 == 1);
    }
}

/// Below TLS 1.3 a hello depends on its random alone: no session id is sent.
pub proof fn old_hellos_send_no_session_id(
    hello: HelloModel,
    random: Seq<u8>,
    session_id: Seq<u8>,
    other: Seq<u8>,
)
    requires
        hello.version != TlsVersion::Tls13,
    ensures
        hello.record(random, session_id) == hello.record(random, other),
{
}

/// No hello carries the same extension type twice.
pub proof fn extensions_are_distinct(hello: HelloModel, i: int, j: int)
    requires
        0 <= i < j < hello.extensions().len(),
    ensures
        hello.extensions()[i].kind != hello.extensions()[j].kind,
{
}

/// Signature algorithms are listed from TLS 1.2 on, and never below.
pub proof fn signature_algorithms_from_tls12_on(hello: HelloModel)
    ensures
        hello.version.wire_number() >= TlsVersion::Tls12.wire_number()
            <==> hello.extensions().contains(signature_algorithms()),
        hello.version.wire_number() < TlsVersion::Tls12.wire_number() ==> forall|i: int|
            0 <= i < hello.extensions().len() ==> (#[trigger] hello.extensions()[i]).kind
                != signature_algorithms().kind,
{
    let list = hello.extensions();
    if hello.version == TlsVersion::Tls12 {
        assert(list[8] == signature_algorithms());
    }
    if hello.version == TlsVersion::Tls13 {
        assert(list[5] == signature_algorithms());
    }
}

/// A TLS 1.3 hello names TLS 1.3 as its only supported version, names its way to use pre-shared
/// keys and carries its key share; no older hello has any of these extensions.
pub proof fn tls13_extensions_in_tls13_hellos_only(hello: HelloModel)
    ensures
        hello.version == TlsVersion::Tls13 ==> hello.extensions().contains(supported_versions13())
            && hello.extensions().contains(psk_key_exchange_modes()) && hello.extensions().contains(
            key_share(hello.key->0),
        ),
        hello.version != TlsVersion::Tls13 ==> forall|i: int|
            0 <= i < hello.extensions().len() ==> {
                &&& (#[trigger] hello.extensions()[i]).kind != supported_versions13().kind
                &&& hello.extensions()[i].kind != psk_key_exchange_modes().kind
                &&& hello.extensions()[i].kind != key_share(seq![]).kind
            },
{
    let list = hello.extensions();
    if hello.version == TlsVersion::Tls13 {
        assert(list[6] == supported_versions13());
        assert(list[7] == psk_key_exchange_modes());
        assert(list[8] == key_share(hello.key->0));
    }
}

/// A key share, a session id and a fresh random are what was drawn for them, and where no random
/// could be had, the error has the system's text.
pub(crate) proof fn drawn_values_are_kept(key: Seq<u8>, id: Seq<u8>, random: Seq<u8>, why: String)
    ensures
        is_drawn_key(key) <==> exists|k: [u8; 32]| #[trigger]
            call_ensures(ephemeral_public_key, (), k) && k@ == key,
        is_drawn_id(id) <==> exists|k: [u8; 32]| #[trigger]
            call_ensures(random_session_id, (), k) && k@ == id,
        is_system_random(random) <==> exists|k: [u8; 32]| #[trigger]
            call_ensures(system_random, (), Ok::<[u8; 32], openssl::error::ErrorStack>(k)) && k@
                == random,
        is_random_failure(why) <==> exists|e: openssl::error::ErrorStack|
            {
                &&& #[trigger] call_ensures(
                    system_random,
                    (),
                    Err::<[u8; 32], openssl::error::ErrorStack>(e),
                )
                &&& call_ensures(error_text, (&e,), why)
            },
{
}

} // verus!
