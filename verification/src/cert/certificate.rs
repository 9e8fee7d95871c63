//! Fetching the server's certificate and reading its contents.
//!
//! The certificate is fetched over a connection that checks it. Only if that fails, it is fetched
//! again over one that checks nothing and takes every cipher, and then it counts as not trusted.

use vstd::prelude::*;

use crate::retry;
use crate::retry::RetryError;
use crate::tls::TlsVersion;

verus! {

/// How often a connection is tried.
pub const CONNECT_ATTEMPTS: u32 = 3;

/// The number of the method that leads to the issuer's certificate (`NID_ad_ca_issuers`).
pub const AD_CA_ISSUERS: i32 = 179;

/// The numbers of the kinds of keys, as OpenSSL 1.1.1 and later have them.
pub const KEY_RSA: i32 = 6;

pub const KEY_DSA: i32 = 116;

pub const KEY_EC: i32 = 408;

pub const KEY_HMAC: i32 = 855;

pub const KEY_X25519: i32 = 1034;

pub const KEY_X448: i32 = 1035;

pub const KEY_ED25519: i32 = 1087;

pub const KEY_ED448: i32 = 1088;

/// How a connection is set up.
#[derive(Debug, Clone, Copy, PartialEq, Eq)]
pub struct Handshake {
    /// The lowest protocol version to accept.
    pub min_version: TlsVersion,
    /// Whether the server's name is sent.
    pub send_server_name: bool,
    /// Whether the certificate must lead to one of Mozilla's roots.
    pub verify_peer: bool,
    /// Whether the certificate must be made out to the server's name.
    pub verify_hostname: bool,
    /// The security level, unless it is left as it is.
    pub security_level: Option<u32>,
    /// The ciphers, unless they are left as they are.
    pub cipher_list: Option<&'static str>,
}

/// Whether `h` sets up a connection that checks the certificate, or one that checks nothing and
/// takes every cipher.
pub open spec fn sets_up(h: Handshake, verify: bool) -> bool {
    &&& h.min_version == TlsVersion::Tls10
    &&& h.send_server_name
    &&& h.verify_peer == verify
    &&& h.verify_hostname == verify
    &&& if verify {
        h.security_level is None && h.cipher_list is None
    } else {
        h.security_level == Some(0u32) && (h.cipher_list matches Some(list) && list@
            == "ALL:@SECLEVEL=0"@)
    }
}

/// Sets up a connection that checks the certificate or one that does not.
pub fn fetch_with_verify(verify: bool) -> (h: Handshake)
    ensures
        sets_up(h, verify),
{
    Handshake {
        min_version: TlsVersion::Tls10,
        send_server_name: true,
        verify_peer: verify,
        verify_hostname: verify,
        security_level: if verify {
            None
        } else {
            Some(0)
        },
        cipher_list: if verify {
            None
        } else {
            Some("ALL:@SECLEVEL=0")
        },
    }
}

/// How an attempt to connect ended.
#[derive(Debug)]
pub enum Connected {
    /// The connection could not be made.
    Unreachable(String),
    /// The connection could not be set up.
    NotConfigured(String),
    /// The handshake failed.
    NoHandshake(String),
    /// The server sent no certificate.
    NoCertificate,
    /// The server sent this certificate, in DER.
    Peer(Vec<u8>),
}

/// Returns the certificate, or why there is none. Only a connection that could not be made is
/// worth another attempt.
pub fn peer_certificate(event: Connected) -> (r: Result<Vec<u8>, RetryError>)
    ensures
        match event {
            Connected::Peer(der) => r == Ok::<Vec<u8>, RetryError>(der),
            Connected::Unreachable(why) => r matches Err(e) && e@ == retry::Failure::Transient(
                why@,
            ),
            Connected::NotConfigured(why) => r matches Err(e) && e@ == retry::Failure::Definitive(
                why@,
            ),
            Connected::NoHandshake(why) => r matches Err(e) && e@ == retry::Failure::Definitive(
                why@,
            ),
            Connected::NoCertificate => r matches Err(e) && e@ == retry::Failure::Definitive(
                "failed to fetch cert"@,
            ),
        },
{
    match event {
        Connected::Peer(der) => Ok(der),
        Connected::Unreachable(why) => Err(RetryError::from_io(why)),
        Connected::NotConfigured(why) => Err(RetryError::Definitive(why)),
        Connected::NoHandshake(why) => Err(RetryError::Definitive(why)),
        Connected::NoCertificate => Err(
            RetryError::Definitive(String::from_str("failed to fetch cert")),
        ),
    }
}

/// What to do next to fetch a certificate.
#[derive(Debug)]
pub enum FetchStep {
    /// Connect so.
    Connect(Handshake),
    /// This is the certificate, in DER, and whether it is trusted.
    Done { der: Vec<u8>, secure: bool },
    /// There is no certificate.
    Failed(String),
}

/// A public key.
#[derive(Debug)]
pub struct PublicKey {
    /// The number of its kind.
    pub id: i32,
    /// The long name of its kind, if the kind has one.
    pub long_name: Option<String>,
    /// Its size in bits.
    pub bits: u32,
    /// The key in DER, if it can be written so.
    pub der: Option<Vec<u8>>,
}

/// The contents of a certificate, as far as they are shown.
#[derive(Debug)]
pub struct Certificate {
    /// The common names of the subject; none stands for one that is no text.
    pub subject: Vec<Option<String>>,
    /// The alternative names of the subject: each a DNS name, an IP address or neither.
    pub alt_names: Option<Vec<(Option<String>, Option<Vec<u8>>)>>,
    /// The serial number in hexadecimal.
    pub serial: Option<String>,
    /// The start of the validity.
    pub not_before: String,
    /// The end of the validity.
    pub not_after: String,
    /// The common names of the issuer; none stands for one that is no text.
    pub issuer: Vec<Option<String>>,
    /// Where to find out about the issuer: the number of the method, and the place if it is a URI.
    pub authority_info: Option<Vec<(i32, Option<String>)>>,
    /// The public key.
    pub public_key: Option<PublicKey>,
    /// The name of the signature's algorithm.
    pub signature: String,
    /// The SHA-256 digest.
    pub digest: Option<Vec<u8>>,
    /// Whether the certificate is trusted.
    pub secure: bool,
}

/// The texts and values of a public key.
#[verifier::ext_equal]
pub struct KeyModel {
    pub id: i32,
    pub long_name: Option<Seq<char>>,
    pub bits: u32,
    pub der: Option<Seq<u8>>,
}

/// The texts and values of a certificate.
#[verifier::ext_equal]
pub struct CertificateModel {
    pub subject: Seq<Option<Seq<char>>>,
    pub alt_names: Option<Seq<(Option<Seq<char>>, Option<Seq<u8>>)>>,
    pub serial: Option<Seq<char>>,
    pub not_before: Seq<char>,
    pub not_after: Seq<char>,
    pub issuer: Seq<Option<Seq<char>>>,
    pub authority_info: Option<Seq<(i32, Option<Seq<char>>)>>,
    pub public_key: Option<KeyModel>,
    pub signature: Seq<char>,
    pub digest: Option<Seq<u8>>,
    pub secure: bool,
}

impl View for PublicKey {
    type V = KeyModel;

    open spec fn view(&self) -> KeyModel {
        KeyModel {
            id: self.id,
            long_name: self.long_name.deep_view(),
            bits: self.bits,
            der: self.der.deep_view(),
        }
    }
}

impl View for Certificate {
    type V = CertificateModel;

    open spec fn view(&self) -> CertificateModel {
        CertificateModel {
            subject: self.subject.deep_view(),
            alt_names: self.alt_names.deep_view(),
            serial: self.serial.deep_view(),
            not_before: self.not_before@,
            not_after: self.not_after@,
            issuer: self.issuer.deep_view(),
            authority_info: self.authority_info.deep_view(),
            public_key: match self.public_key {
                Some(key) => Some(key@),
                None => None,
            },
            signature: self.signature@,
            digest: self.digest.deep_view(),
            secure: self.secure,
        }
    }
}

// ---------------------------------------------------------------------------
// Reading a certificate
// ---------------------------------------------------------------------------

/// The texts of the subject's common names; none if `der` holds no certificate.
pub uninterp spec fn subject_common_names(der: Seq<u8>) -> Option<Seq<Option<Seq<char>>>>;

/// The texts of the issuer's common names; none if `der` holds no certificate.
pub uninterp spec fn issuer_common_names(der: Seq<u8>) -> Option<Seq<Option<Seq<char>>>>;

/// The alternative names of the subject; none if `der` holds no certificate.
pub uninterp spec fn subject_alt_names(der: Seq<u8>) -> Option<
    Option<Seq<(Option<Seq<char>>, Option<Seq<u8>>)>>,
>;

/// The serial number; none if `der` holds no certificate.
pub uninterp spec fn serial_number(der: Seq<u8>) -> Option<Option<Seq<char>>>;

/// The start of the validity; none if `der` holds no certificate.
pub uninterp spec fn not_before(der: Seq<u8>) -> Option<Seq<char>>;

/// The end of the validity; none if `der` holds no certificate.
pub uninterp spec fn not_after(der: Seq<u8>) -> Option<Seq<char>>;

/// Where to find out about the issuer: whether the method leads to the issuer's certificate, and
/// the place if it is a URI.
pub uninterp spec fn authority_info(der: Seq<u8>) -> Option<Seq<(bool, Option<Seq<char>>)>>;

/// The kind, the size and the DER form of a public key whose kind has a name of its own here.
pub uninterp spec fn public_key(der: Seq<u8>) -> (i32, u32, Seq<u8>);

/// The SHA-256 digest.
pub uninterp spec fn fingerprint(der: Seq<u8>) -> Seq<u8>;

/// Whether `der` holds a certificate.
pub open spec fn is_certificate(der: Seq<u8>) -> bool {
    not_before(der) is Some
}

/// Whether a kind of keys has a name of its own here.
pub open spec fn is_named_kind(id: i32) -> bool {
    ||| id == KEY_RSA
    ||| id == KEY_DSA
    ||| id == KEY_EC
    ||| id == KEY_HMAC
    ||| id == KEY_X25519
    ||| id == KEY_X448
    ||| id == KEY_ED25519
    ||| id == KEY_ED448
}

/// Whether `key` is the key `named`, with its DER form or without.
pub open spec fn is_key(key: (i32, u32, Option<Seq<u8>>), named: (i32, u32, Seq<u8>)) -> bool {
    &&& key.0 == named.0
    &&& key.1 == named.1
    &&& key.2 matches Some(der) ==> der == named.2
}

/// Which of the methods lead to the issuer's certificate, each with its place.
pub open spec fn marked_methods(info: Option<Seq<(i32, Option<Seq<char>>)>>) -> Option<
    Seq<(bool, Option<Seq<char>>)>,
> {
    match info {
        Some(list) => Some(
            list.map_values(|d: (i32, Option<Seq<char>>)| (d.0 == AD_CA_ISSUERS, d.1)),
        ),
        None => None,
    }
}

/// `X509Ref::subject_name` and `X509NameRef::entries_by_nid` with `Nid::COMMONNAME` of the
/// certificate that `X509::from_der` reads, each entry by `as_utf8`. The result is a function of
/// the bytes.
#[verifier::external_body]
pub(crate) fn read_subject(der: &[u8]) -> (r: Option<Vec<Option<String>>>)
    ensures
        r.deep_view() == subject_common_names(der@),
        r is Some <==> is_certificate(der@),
{
    let cert = openssl::x509::X509::from_der(der).ok()?;
    let entries = cert.subject_name().entries_by_nid(openssl::nid::Nid::COMMONNAME);
    #[allow(deprecated)]
    let texts = entries.map(|e| e.data().as_utf8().ok().map(|s| s.to_string())).collect();
    Some(texts)
}

/// `X509Ref::issuer_name` and `X509NameRef::entries_by_nid` with `Nid::COMMONNAME` of the
/// certificate that `X509::from_der` reads, each entry by `as_utf8`. The result is a function of
/// the bytes.
#[verifier::external_body]
pub(crate) fn read_issuer(der: &[u8]) -> (r: Option<Vec<Option<String>>>)
    ensures
        r.deep_view() == issuer_common_names(der@),
        r is Some <==> is_certificate(der@),
{
    let cert = openssl::x509::X509::from_der(der).ok()?;
    let entries = cert.issuer_name().entries_by_nid(openssl::nid::Nid::COMMONNAME);
    #[allow(deprecated)]
    let texts = entries.map(|e| e.data().as_utf8().ok().map(|s| s.to_string())).collect();
    Some(texts)
}

/// `X509Ref::subject_alt_names` of the certificate that `X509::from_der` reads, each name by
/// `dnsname` and `ipaddress`. The result is a function of the bytes.
#[verifier::external_body]
pub(crate) fn read_alt_names(der: &[u8]) -> (r: Option<Option<Vec<(Option<String>, Option<Vec<u8>>)>>>)
    ensures
        r.deep_view() == subject_alt_names(der@),
        r is Some <==> is_certificate(der@),
{
    let cert = openssl::x509::X509::from_der(der).ok()?;
    let names = cert.subject_alt_names();
    Some(
        names.map(
            |s| s.iter().map(
                |n| (n.dnsname().map(str::to_string), n.ipaddress().map(<[u8]>::to_vec)),
            ).collect(),
        ),
    )
}

/// `X509Ref::serial_number` of the certificate that `X509::from_der` reads, by `to_bn` and
/// `to_hex_str`. The result is a function of the bytes.
#[verifier::external_body]
pub(crate) fn read_serial(der: &[u8]) -> (r: Option<Option<String>>)
    ensures
        r.deep_view() == serial_number(der@),
        r is Some <==> is_certificate(der@),
{
    let cert = openssl::x509::X509::from_der(der).ok()?;
    let number = cert.serial_number().to_bn();
    Some(number.and_then(|n| n.to_hex_str().map(|s| s.to_string())).ok())
}

/// `X509Ref::not_before` of the certificate that `X509::from_der` reads, as text. The result is a
/// function of the bytes.
#[verifier::external_body]
pub(crate) fn read_not_before(der: &[u8]) -> (r: Option<String>)
    ensures
        r.deep_view() == not_before(der@),
{
    Some(openssl::x509::X509::from_der(der).ok()?.not_before().to_string())
}

/// `X509Ref::not_after` of the certificate that `X509::from_der` reads, as text. The result is a
/// function of the bytes.
#[verifier::external_body]
pub(crate) fn read_not_after(der: &[u8]) -> (r: Option<String>)
    ensures
        r.deep_view() == not_after(der@),
        r is Some <==> is_certificate(der@),
{
    Some(openssl::x509::X509::from_der(der).ok()?.not_after().to_string())
}

/// `X509Ref::authority_info` of the certificate that `X509::from_der` reads, each description by
/// the number of its method and the URI of its location. Which of the numbers is that of the method
/// that leads to the issuer's certificate is a function of the bytes, and so are the URIs. The
/// numbers of other methods rest on the objects that the process has registered, so nothing is
/// claimed of them.
#[verifier::external_body]
pub(crate) fn read_authority_info(der: &[u8]) -> (r: Option<Option<Vec<(i32, Option<String>)>>>)
    ensures
        r is Some <==> is_certificate(der@),
        r is Some ==> marked_methods(r->0.deep_view()) == authority_info(der@),
{
    let cert = openssl::x509::X509::from_der(der).ok()?;
    let info = cert.authority_info();
    Some(
        info.map(
            |s| s.iter().map(
                |d| (d.method().nid().as_raw(), d.location().uri().map(str::to_string)),
            ).collect(),
        ),
    )
}

/// `X509Ref::public_key` of the certificate that `X509::from_der` reads, by `id`, `bits` and
/// `public_key_to_der`. Where the number that `id` gives is one of those of `is_named_kind`, the
/// number and the size are functions of the bytes, and so is the DER form, if there is one. Which
/// keys can be read or written, and the numbers of other kinds, rest on the providers that the
/// process has loaded, so nothing is claimed of that.
#[verifier::external_body]
pub(crate) fn read_public_key(der: &[u8]) -> (r: Option<Option<(i32, u32, Option<Vec<u8>>)>>)
    ensures
        r is Some <==> is_certificate(der@),
        r matches Some(Some(key)) ==> is_named_kind(key.0) ==> is_key(
            key.deep_view(),
            public_key(der@),
        ),
{
    let key = openssl::x509::X509::from_der(der).ok()?.public_key().ok();
    Some(key.map(|k| (k.id().as_raw(), k.bits(), k.public_key_to_der().ok())))
}

/// `X509Ref::signature_algorithm` of the certificate that `X509::from_der` reads, its object as
/// text. The text is never empty. It is a name or a number, depending on the objects that the
/// process has registered, so nothing more is claimed of it.
#[verifier::external_body]
pub(crate) fn read_signature(der: &[u8]) -> (r: Option<String>)
    ensures
        r is Some <==> is_certificate(der@),
        r is Some ==> r->0@.len() > 0,
{
    Some(openssl::x509::X509::from_der(der).ok()?.signature_algorithm().object().to_string())
}

/// `X509Ref::digest` with `MessageDigest::sha256` of the certificate that `X509::from_der` reads.
/// The digest, if there is one, is a function of the bytes, and 32 bytes long. Whether there is one rests on the
/// providers that the process has loaded, so nothing is claimed of that.
#[verifier::external_body]
pub(crate) fn read_digest(der: &[u8]) -> (r: Option<Option<Vec<u8>>>)
    ensures
        r is Some <==> is_certificate(der@),
        r matches Some(Some(digest)) ==> digest.deep_view() == fingerprint(der@)
            && digest.deep_view().len() == 32,
{
    let cert = openssl::x509::X509::from_der(der).ok()?;
    let digest = cert.digest(openssl::hash::MessageDigest::sha256());
    Some(digest.ok().map(|d| d.to_vec()))
}

/// `Nid::long_name` of the number `nid`. The name rests on the objects that the process has
/// registered, so nothing is claimed of it.
#[verifier::external_body]
pub(crate) fn read_long_name(nid: i32) -> (r: Option<String>)
{
    openssl::nid::Nid::from_raw(nid).long_name().ok().map(str::to_string)
}

/// What was read of a certificate; each reading is none if there was no certificate to read.
#[derive(Debug)]
pub struct Readings {
    pub subject: Option<Vec<Option<String>>>,
    pub alt_names: Option<Option<Vec<(Option<String>, Option<Vec<u8>>)>>>,
    pub serial: Option<Option<String>>,
    pub not_before: Option<String>,
    pub not_after: Option<String>,
    pub issuer: Option<Vec<Option<String>>>,
    pub authority_info: Option<Option<Vec<(i32, Option<String>)>>>,
    /// The number of the key's kind, its size in bits and its DER form.
    pub public_key: Option<Option<(i32, u32, Option<Vec<u8>>)>>,
    /// The long name of the key's kind.
    pub long_name: Option<String>,
    pub signature: Option<String>,
    pub digest: Option<Option<Vec<u8>>>,
}

impl Readings {
    /// Whether there was a certificate to read.
    pub open spec fn is_complete(self) -> bool {
        &&& self.subject is Some
        &&& self.alt_names is Some
        &&& self.serial is Some
        &&& self.not_before is Some
        &&& self.not_after is Some
        &&& self.issuer is Some
        &&& self.authority_info is Some
        &&& self.public_key is Some
        &&& self.signature is Some
        &&& self.digest is Some
    }

    /// The certificate that was read.
    pub open spec fn certificate(self, secure: bool) -> CertificateModel {
        CertificateModel {
            subject: self.subject->0.deep_view(),
            alt_names: self.alt_names->0.deep_view(),
            serial: self.serial->0.deep_view(),
            not_before: self.not_before->0@,
            not_after: self.not_after->0@,
            issuer: self.issuer->0.deep_view(),
            authority_info: self.authority_info->0.deep_view(),
            public_key: match self.public_key->0 {
                Some((id, bits, der)) => Some(
                    KeyModel {
                        id,
                        long_name: self.long_name.deep_view(),
                        bits,
                        der: der.deep_view(),
                    },
                ),
                None => None,
            },
            signature: self.signature->0@,
            digest: self.digest->0.deep_view(),
            secure,
        }
    }
}

/// Whether `cert` has the contents of the certificate in `der`. The name of the signature's
/// algorithm, the long name of the key's kind, keys of a kind that is not named here, and whether
/// the key and the digest are there are left open, for they rest on the process.
pub open spec fn has_contents(cert: CertificateModel, der: Seq<u8>) -> bool {
    &&& subject_common_names(der) == Some(cert.subject)
    &&& subject_alt_names(der) == Some(cert.alt_names)
    &&& serial_number(der) == Some(cert.serial)
    &&& not_before(der) == Some(cert.not_before)
    &&& not_after(der) == Some(cert.not_after)
    &&& issuer_common_names(der) == Some(cert.issuer)
    &&& authority_info(der) == marked_methods(cert.authority_info)
    &&& cert.public_key matches Some(key) ==> is_named_kind(key.id) ==> is_key(
        (key.id, key.bits, key.der),
        public_key(der),
    )
    &&& cert.signature.len() > 0
    &&& cert.digest matches Some(digest) ==> digest == fingerprint(der) && digest.len() == 32
}

/// Whether `step` is what is done next to fetch a certificate.
pub open spec fn fetches(
    verified: Option<Result<Vec<u8>, String>>,
    unverified: Option<Result<Vec<u8>, String>>,
    step: FetchStep,
) -> bool {
    match (verified, unverified) {
        (None, _) => step matches FetchStep::Connect(h) && sets_up(h, true),
        (Some(Ok(cert)), _) => step == (FetchStep::Done { der: cert, secure: true }),
        (Some(Err(_)), None) => step matches FetchStep::Connect(h) && sets_up(h, false),
        (Some(Err(_)), Some(Ok(cert))) => step == (FetchStep::Done {
            der: cert,
            secure: false,
        }),
        (Some(Err(_)), Some(Err(why))) => step == FetchStep::Failed(why),
    }
}

/// A certificate is trusted exactly if the connection that checks it delivered it; the other
/// connection is not even made then.
pub proof fn trust_comes_from_checking(
    verified: Option<Result<Vec<u8>, String>>,
    unverified: Option<Result<Vec<u8>, String>>,
    step: FetchStep,
)
    requires
        fetches(verified, unverified, step),
    ensures
        (step is Done && step->secure) <==> (verified matches Some(Ok(_))),
        step matches FetchStep::Connect(h) && sets_up(h, false) ==> (verified matches Some(Err(_))),
{
}

impl Certificate {
    /// Says what to do next to fetch a certificate, from how the connection that checks it and the
    /// one that does not have ended, as far as they have been made.
    pub fn fetch(
        verified: Option<Result<Vec<u8>, String>>,
        unverified: Option<Result<Vec<u8>, String>>,
    ) -> (step: FetchStep)
        ensures
            fetches(verified, unverified, step),
    {
        match verified {
            None => FetchStep::Connect(fetch_with_verify(true)),
            Some(Ok(der)) => FetchStep::Done { der, secure: true },
            Some(Err(_)) => match unverified {
                None => FetchStep::Connect(fetch_with_verify(false)),
                Some(Ok(der)) => FetchStep::Done { der, secure: false },
                Some(Err(why)) => FetchStep::Failed(why),
            },
        }
    }

    /// Makes a certificate from what was read of it.
    pub fn from_readings(readings: Readings, secure: bool) -> (r: Option<Certificate>)
        ensures
            r is Some <==> readings.is_complete(),
            r matches Some(cert) ==> cert@ == readings.certificate(secure),
    {
        match (
            readings.subject,
            readings.alt_names,
            readings.serial,
            readings.not_before,
            readings.not_after,
            readings.issuer,
            readings.authority_info,
            readings.public_key,
            readings.signature,
            readings.digest,
        ) {
            (
                Some(subject),
                Some(alt_names),
                Some(serial),
                Some(not_before),
                Some(not_after),
                Some(issuer),
                Some(authority_info),
                Some(key),
                Some(signature),
                Some(digest),
            ) => {
                let public_key = match key {
                    Some((id, bits, der)) => Some(
                        PublicKey { id, long_name: readings.long_name, bits, der },
                    ),
                    None => None,
                };
                Some(
                    Certificate {
                        subject,
                        alt_names,
                        serial,
                        not_before,
                        not_after,
                        issuer,
                        authority_info,
                        public_key,
                        signature,
                        digest,
                        secure,
                    },
                )
            },
            _ => None,
        }
    }

    /// Reads a certificate in DER.
    pub fn read(der: &[u8], secure: bool) -> (r: Option<Certificate>)
        ensures
            r is Some <==> is_certificate(der@),
            r matches Some(cert) ==> cert.secure == secure && has_contents(cert@, der@),
            exists|readings: Readings|
                {
                    &&& #[trigger] were_read(der, readings)
                    &&& r is Some <==> readings.is_complete()
                    &&& r matches Some(cert) ==> cert@ == readings.certificate(secure)
                },
    {
        let public_key = reading(read_public_key, der);
        let long_name = match &public_key {
            Some(Some(key)) => reading(read_long_name, key.0),
            _ => None,
        };
        let readings = Readings {
            subject: reading(read_subject, der),
            alt_names: reading(read_alt_names, der),
            serial: reading(read_serial, der),
            not_before: reading(read_not_before, der),
            not_after: reading(read_not_after, der),
            issuer: reading(read_issuer, der),
            authority_info: reading(read_authority_info, der),
            public_key,
            long_name,
            signature: reading(read_signature, der),
            digest: reading(read_digest, der),
        };
        assert(were_read(der, readings));
        Certificate::from_readings(readings, secure)
    }
}

/// Calls `f` with `from`.
fn reading<A, T, F: Fn(A) -> T>(f: F, from: A) -> (r: T)
    requires
        call_requires(f, (from,)),
    ensures
        call_ensures(f, (from,), r),
{
    f(from)
}

/// Whether `readings` are what was read of `der`.
pub closed spec fn were_read(der: &[u8], readings: Readings) -> bool {
    &&& call_ensures(read_subject, (der,), readings.subject)
    &&& call_ensures(read_alt_names, (der,), readings.alt_names)
    &&& call_ensures(read_serial, (der,), readings.serial)
    &&& call_ensures(read_not_before, (der,), readings.not_before)
    &&& call_ensures(read_not_after, (der,), readings.not_after)
    &&& call_ensures(read_issuer, (der,), readings.issuer)
    &&& call_ensures(read_authority_info, (der,), readings.authority_info)
    &&& call_ensures(read_public_key, (der,), readings.public_key)
    &&& call_ensures(read_signature, (der,), readings.signature)
    &&& call_ensures(read_digest, (der,), readings.digest)
    &&& match readings.public_key {
        Some(Some(key)) => call_ensures(read_long_name, (key.0,), readings.long_name),
        _ => readings.long_name is None,
    }
}

/// A certificate that is read keeps each reading: there are results of the readings of `der` such
/// that each field is what was read for it, and there is a certificate if no reading failed. The
/// key is there exactly if one was read, with the number, the size and the DER form that were read
/// and the long name that was read for that number.
pub(crate) proof fn readings_are_kept(
    der: &[u8],
    secure: bool,
    r: Option<Certificate>,
) -> (readings: Readings)
    requires
        call_ensures(Certificate::read, (der, secure), r),
    ensures
        call_ensures(read_subject, (der,), readings.subject),
        call_ensures(read_alt_names, (der,), readings.alt_names),
        call_ensures(read_serial, (der,), readings.serial),
        call_ensures(read_not_before, (der,), readings.not_before),
        call_ensures(read_not_after, (der,), readings.not_after),
        call_ensures(read_issuer, (der,), readings.issuer),
        call_ensures(read_authority_info, (der,), readings.authority_info),
        call_ensures(read_public_key, (der,), readings.public_key),
        call_ensures(read_signature, (der,), readings.signature),
        call_ensures(read_digest, (der,), readings.digest),
        r is Some <==> (readings.subject is Some && readings.alt_names is Some && readings.serial
            is Some && readings.not_before is Some && readings.not_after is Some && readings.issuer
            is Some && readings.authority_info is Some && readings.public_key is Some
            && readings.signature is Some && readings.digest is Some),
        r matches Some(cert) ==> {
            &&& cert.subject.deep_view() == readings.subject->0.deep_view()
            &&& cert.alt_names.deep_view() == readings.alt_names->0.deep_view()
            &&& cert.serial.deep_view() == readings.serial->0.deep_view()
            &&& cert.not_before@ == readings.not_before->0@
            &&& cert.not_after@ == readings.not_after->0@
            &&& cert.issuer.deep_view() == readings.issuer->0.deep_view()
            &&& cert.authority_info.deep_view() == readings.authority_info->0.deep_view()
            &&& cert.signature@ == readings.signature->0@
            &&& cert.digest.deep_view() == readings.digest->0.deep_view()
            &&& cert.secure == secure
            &&& match readings.public_key->0 {
                Some((id, bits, key_der)) => cert.public_key matches Some(key) && key.id == id
                    && key.bits == bits && key.der.deep_view() == key_der.deep_view()
                    && key.long_name.deep_view() == readings.long_name.deep_view()
                    && call_ensures(read_long_name, (id,), readings.long_name),
                None => cert.public_key is None,
            }
        },
{
    let readings = choose|readings: Readings|
        {
            &&& #[trigger] were_read(der, readings)
            &&& r is Some <==> readings.is_complete()
            &&& r matches Some(cert) ==> cert@ == readings.certificate(secure)
        };
    readings
}

} // verus!
