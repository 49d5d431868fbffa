//! TLS material: certificates and private keys read from PEM text, and
//! self-signed certificates.

use vstd::prelude::*;
use crate::error::{Error, ErrorView};
use crate::text::join2;
use rcgen::{CertificateParams, KeyPair};
use tokio_rustls::rustls::pki_types::PrivateKeyDer;

verus! {

#[verifier::external_type_specification]
#[verifier::external_body]
pub struct ExKeyPair(KeyPair);

#[verifier::external_type_specification]
#[verifier::external_body]
pub struct ExCertificateParams(CertificateParams);

/// The DER certificates that `rustls_pemfile::certs` reads from PEM text,
/// in order, or the message of the first error.
pub uninterp spec fn pem_certificates(pem: Seq<u8>) -> core::result::Result<Seq<Seq<u8>>, Seq<char>>;

/// What `rustls_pemfile::private_key` reads from PEM text: the kind and the
/// DER bytes of the first private key (`None` when there is none), or the
/// message of the error.
pub uninterp spec fn pem_private_key(pem: Seq<u8>) -> core::result::Result<Option<(KeyKind, Seq<u8>)>, Seq<char>>;

/// The message with which `PrivateKeyDer::try_from` refuses DER bytes as a
/// private key; `None` when it accepts them.
pub uninterp spec fn private_key_der_refusal(der: Seq<u8>) -> Option<Seq<char>>;

/// `rustls_pemfile::certs`, collected until the first error; the
/// certificates are copied out as DER bytes and the error as its message.
#[verifier::external_body]
fn read_pem_certificates(pem: &[u8]) -> (r: Result<Vec<Vec<u8>>, String>)
    ensures
        match r {
            Ok(v) => pem_certificates(pem@) == Ok::<_, Seq<char>>(v@.map_values(|c: Vec<u8>| c@)),
            Err(m) => pem_certificates(pem@) == Err::<Seq<Seq<u8>>, _>(m@),
        },
{
    let mut rd: &[u8] = pem;
    match rustls_pemfile::certs(&mut rd).collect::<Result<Vec<_>, _>>() {
        Ok(v) => Ok(v.iter().map(|c| c.to_vec()).collect()),
        Err(e) => Err(e.to_string()),
    }
}

/// The kind of a private key, as its PEM label gives it.
#[derive(Clone, Copy, Debug, PartialEq, Eq)]
pub enum KeyKind {
    /// An RSA key (PKCS#1).
    Pkcs1,
    /// An elliptic-curve key (SEC1).
    Sec1,
    /// A key of any algorithm (PKCS#8).
    Pkcs8,
    /// A kind that `PrivateKeyDer` adds later (none in the version used).
    Other,
}

/// `rustls_pemfile::private_key`: the first private key of the PEM text,
/// copied out as its kind (the `PrivateKeyDer` variant) and its DER bytes
/// (`PrivateKeyDer::secret_der`), with the error copied out as its message.
#[verifier::external_body]
fn read_pem_private_key(pem: &[u8]) -> (r: Result<Option<(KeyKind, Vec<u8>)>, String>)
    ensures
        match r {
            Ok(Some((kind, k))) => pem_private_key(pem@) == Ok::<_, Seq<char>>(Some((kind, k@))),
            Ok(None) => pem_private_key(pem@) == Ok::<Option<(KeyKind, Seq<u8>)>, Seq<char>>(None),
            Err(m) => pem_private_key(pem@) == Err::<Option<(KeyKind, Seq<u8>)>, _>(m@),
        },
{
    let mut rd: &[u8] = pem;
    let key = match rustls_pemfile::private_key(&mut rd) {
        Ok(Some(k)) => k,
        Ok(None) => return Ok(None),
        Err(e) => return Err(e.to_string()),
    };
    let kind = match &key {
        PrivateKeyDer::Pkcs1(_) => KeyKind::Pkcs1,
        PrivateKeyDer::Sec1(_) => KeyKind::Sec1,
        PrivateKeyDer::Pkcs8(_) => KeyKind::Pkcs8,
        _ => KeyKind::Other,
    };
    Ok(Some((kind, key.secret_der().to_vec())))
}

/// A server's certificate chain and private key, as DER bytes, with the
/// key's kind.
pub struct TlsMaterial {
    pub certs: Vec<Vec<u8>>,
    pub key: Vec<u8>,
    pub key_kind: KeyKind,
}

/// The DER certificates of a list, by value.
pub open spec fn der_list(v: Seq<Vec<u8>>) -> Seq<Seq<u8>> {
    v.map_values(|c: Vec<u8>| c@)
}

/// Reads the server's certificate chain and private key from the PEM text
/// of the certificate file and of the key file.
pub fn load_tls_material(cert_pem: &[u8], key_pem: &[u8]) -> (r: Result<TlsMaterial, Error>)
    ensures
        match (pem_certificates(cert_pem@), pem_private_key(key_pem@)) {
            (Err(t), _) => r matches Err(e) && e@ == ErrorView::Config("failed to parse TLS certificate: "@ + t),
            (Ok(_), Err(t)) => r matches Err(e) && e@ == ErrorView::Config("failed to parse TLS key: "@ + t),
            (Ok(_), Ok(None)) => r matches Err(e) && e@ == ErrorView::Config(
                "no private key found in key file"@,
            ),
            (Ok(cs), Ok(Some((kind, k)))) => r matches Ok(m) && der_list(m.certs@) == cs && m.key@ == k && m.key_kind
                == kind,
        },
{
    let certs = match read_pem_certificates(cert_pem) {
        Ok(c) => c,
        Err(t) => {
            let m = join2("failed to parse TLS certificate: ", t.as_str());
            return Err(Error::config(m.as_str()));
        },
    };
    let (key_kind, key) = match read_pem_private_key(key_pem) {
        Ok(Some(k)) => k,
        Ok(None) => {
            return Err(Error::config("no private key found in key file"));
        },
        Err(t) => {
            let m = join2("failed to parse TLS key: ", t.as_str());
            return Err(Error::config(m.as_str()));
        },
    };
    Ok(TlsMaterial { certs, key, key_kind })
}

/// Reads the CA certificates that verify a server, from PEM text.
pub fn load_ca_certificates(pem: &[u8]) -> (r: Result<Vec<Vec<u8>>, Error>)
    ensures
        match pem_certificates(pem@) {
            Err(t) => r matches Err(e) && e@ == ErrorView::Config("failed to parse CA certificate: "@ + t),
            Ok(cs) => r matches Ok(v) && der_list(v@) == cs,
        },
{
    match read_pem_certificates(pem) {
        Ok(c) => Ok(c),
        Err(t) => {
            let m = join2("failed to parse CA certificate: ", t.as_str());
            let e = Error::config(m.as_str());
            assert(e@ == ErrorView::Config("failed to parse CA certificate: "@ + t@));
            Err(e)
        },
    }
}

/// A key usage of a certificate.
#[derive(Clone, Copy, Debug, PartialEq, Eq)]
pub enum KeyUsage {
    DigitalSignature,
}

/// An extended key usage of a certificate.
#[derive(Clone, Copy, Debug, PartialEq, Eq)]
pub enum ExtendedKeyUsage {
    ServerAuth,
}

/// What a self-signed certificate is made for: its common name, its subject
/// alternative names (IP addresses or DNS names) and its key usages.
#[derive(Clone, Debug)]
pub struct CertificateRequest {
    pub common_name: String,
    pub subject_alt_names: Vec<String>,
    pub key_usages: Vec<KeyUsage>,
    pub extended_key_usages: Vec<ExtendedKeyUsage>,
}

/// The mathematical value of a [`CertificateRequest`].
pub struct RequestView {
    pub common_name: Seq<char>,
    pub subject_alt_names: Seq<Seq<char>>,
    pub key_usages: Seq<KeyUsage>,
    pub extended_key_usages: Seq<ExtendedKeyUsage>,
}

impl View for CertificateRequest {
    type V = RequestView;

    open spec fn view(&self) -> RequestView {
        RequestView {
            common_name: self.common_name@,
            subject_alt_names: self.subject_alt_names@.map_values(|s: String| s@),
            key_usages: self.key_usages@,
            extended_key_usages: self.extended_key_usages@,
        }
    }
}

/// rcgen's certificate parameters, with a record of what was written into
/// them: the common name, the subject alternative names and the usages.
pub struct CertParams {
    params: CertificateParams,
    pub written: Ghost<RequestView>,
}

/// The message with which `rcgen::CertificateParams::new` refuses these
/// subject alternative names (one that is neither an IP address nor valid
/// as a DNS name); `None` when it accepts them.
pub uninterp spec fn san_refusal(names: Seq<Seq<char>>) -> Option<Seq<char>>;

/// What a DER certificate carries: its subject's common name, its subject
/// alternative names as text (a DNS name as itself, an IPv4 address in
/// dotted decimal), its key usages and its extended key usages, in order.
pub uninterp spec fn certificate_request_of(der: Seq<u8>) -> RequestView;

/// The subject public key (SubjectPublicKeyInfo DER) of a DER certificate.
pub uninterp spec fn certificate_public_key(der: Seq<u8>) -> Seq<u8>;

/// The public key (SubjectPublicKeyInfo DER) that belongs to a PKCS#8 DER
/// private key.
pub uninterp spec fn public_key_of_private(der: Seq<u8>) -> Seq<u8>;

/// A request whose fields a certificate carries back as they were written:
/// no name holds a `:` (so none is an IPv6 address, whose text has several
/// forms), and no usage is repeated.
pub open spec fn plain_request(r: RequestView) -> bool {
    &&& forall|i: int, j: int|
        0 <= i < r.subject_alt_names.len() && 0 <= j < r.subject_alt_names[i].len() ==> #[trigger] r.subject_alt_names[i][j]
            != ':'
    &&& r.key_usages.no_duplicates()
    &&& r.extended_key_usages.no_duplicates()
}

/// `rcgen::CertificateParams::new`: rcgen's default certificate parameters
/// (common name `rcgen self signed cert`, no key usages, no extended key
/// usages) with the given subject alternative names, each an IP address
/// where it parses as one and a DNS name otherwise; the refusal is copied
/// out as its message.
#[verifier::external_body]
fn certificate_params(subject_alt_names: Vec<String>) -> (r: Result<CertParams, String>)
    ensures
        match r {
            Ok(p) => san_refusal(subject_alt_names@.map_values(|s: String| s@)) is None && p.written@ == (RequestView {
                common_name: "rcgen self signed cert"@,
                subject_alt_names: subject_alt_names@.map_values(|s: String| s@),
                key_usages: Seq::empty(),
                extended_key_usages: Seq::empty(),
            }),
            Err(m) => san_refusal(subject_alt_names@.map_values(|s: String| s@)) == Some(m@),
        },
{
    match CertificateParams::new(subject_alt_names) {
        Ok(p) => Ok(CertParams { params: p, written: Ghost(arbitrary()) }),
        Err(e) => Err(e.to_string()),
    }
}

/// `rcgen::DistinguishedName::push` on the parameters' distinguished name,
/// with the common-name attribute type: sets the common name.
#[verifier::external_body]
fn set_common_name(p: &mut CertParams, name: &str)
    ensures
        final(p).written@ == (RequestView {
            common_name: name@,
            subject_alt_names: old(p).written@.subject_alt_names,
            key_usages: old(p).written@.key_usages,
            extended_key_usages: old(p).written@.extended_key_usages,
        }),
{
    p.params.distinguished_name.push(rcgen::DnType::CommonName, name);
}

/// Writes the parameters' key usages: each usage converted to rcgen's
/// `KeyUsagePurpose`, in order (a field write).
#[verifier::external_body]
fn set_key_usages(p: &mut CertParams, usages: &Vec<KeyUsage>)
    ensures
        final(p).written@ == (RequestView {
            common_name: old(p).written@.common_name,
            subject_alt_names: old(p).written@.subject_alt_names,
            key_usages: usages@,
            extended_key_usages: old(p).written@.extended_key_usages,
        }),
{
    p.params.key_usages = usages
        .iter()
        .map(|u| match u {
            KeyUsage::DigitalSignature => rcgen::KeyUsagePurpose::DigitalSignature,
        })
        .collect();
}

/// Writes the parameters' extended key usages: each usage converted to
/// rcgen's `ExtendedKeyUsagePurpose`, in order (a field write).
#[verifier::external_body]
fn set_extended_key_usages(p: &mut CertParams, usages: &Vec<ExtendedKeyUsage>)
    ensures
        final(p).written@ == (RequestView {
            common_name: old(p).written@.common_name,
            subject_alt_names: old(p).written@.subject_alt_names,
            key_usages: old(p).written@.key_usages,
            extended_key_usages: usages@,
        }),
{
    p.params.extended_key_usages = usages
        .iter()
        .map(|u| match u {
            ExtendedKeyUsage::ServerAuth => rcgen::ExtendedKeyUsagePurpose::ServerAuth,
        })
        .collect();
}

/// A freshly generated key pair with its PKCS#8 DER.
struct GeneratedKey {
    pair: KeyPair,
    der: Vec<u8>,
}

/// `rcgen::KeyPair::generate`: a fresh random key pair, kept with its
/// serialization by `KeyPair::serialize_der` (PKCS#8 DER, private key
/// included; it panics only for a remote key pair, which `generate` does not
/// make), or the error's message. The key rests on chance: nothing is stated
/// of it.
#[verifier::external_body]
fn generate_key_pair() -> (r: Result<GeneratedKey, String>) {
    match KeyPair::generate() {
        Ok(k) => Ok(GeneratedKey { der: k.serialize_der(), pair: k }),
        Err(e) => Err(e.to_string()),
    }
}

/// `rcgen::CertificateParams::self_signed`, read out with `Certificate::der`:
/// the DER certificate for the parameters, signed with the key pair, or the
/// error's message. The certificate's public key is the key pair's, and it
/// carries what was written into the parameters (as text, for a plain
/// request).
#[verifier::external_body]
fn self_signed_der(params: CertParams, key: &GeneratedKey) -> (r: Result<Vec<u8>, String>)
    ensures
        r matches Ok(c) ==> certificate_public_key(c@) == public_key_of_private(key.der@),
        plain_request(params.written@) ==> (r matches Ok(c) ==> certificate_request_of(c@) == params.written@),
{
    match params.params.self_signed(&key.pair) {
        Ok(c) => Ok(c.der().to_vec()),
        Err(e) => Err(e.to_string()),
    }
}

/// `PrivateKeyDer::try_from` on DER bytes: whether they are accepted as a
/// private key, with the refusal copied out as its message.
#[verifier::external_body]
fn check_private_key_der(der: &[u8]) -> (r: Result<(), String>)
    ensures
        match r {
            Ok(()) => private_key_der_refusal(der@) is None,
            Err(m) => private_key_der_refusal(der@) == Some(m@),
        },
{
    match PrivateKeyDer::try_from(der) {
        Ok(_) => Ok(()),
        Err(e) => Err(e.to_string()),
    }
}

/// The names a self-signed certificate is made for.
pub fn self_signed_names() -> (r: Vec<String>)
    ensures
        r@.map_values(|s: String| s@) == seq!["localhost"@, "127.0.0.1"@],
{
    let r = vec!["localhost".to_owned(), "127.0.0.1".to_owned()];
    assert(r@.map_values(|s: String| s@) =~= seq!["localhost"@, "127.0.0.1"@]);
    r
}

/// The request of the server's self-signed certificate: common name
/// `localhost`, valid for `localhost` and 127.0.0.1, for digital signatures
/// and server authentication only.
pub fn self_signed_request() -> (r: CertificateRequest)
    ensures
        r@ == server_certificate_request(),
        r.common_name@ == "localhost"@,
        r.subject_alt_names@.map_values(|s: String| s@) == seq!["localhost"@, "127.0.0.1"@],
        r.key_usages@ == seq![KeyUsage::DigitalSignature],
        r.extended_key_usages@ == seq![ExtendedKeyUsage::ServerAuth],
{
    let r = CertificateRequest {
        common_name: "localhost".to_owned(),
        subject_alt_names: self_signed_names(),
        key_usages: vec![KeyUsage::DigitalSignature],
        extended_key_usages: vec![ExtendedKeyUsage::ServerAuth],
    };
    assert(r.key_usages@ =~= seq![KeyUsage::DigitalSignature]);
    assert(r.extended_key_usages@ =~= seq![ExtendedKeyUsage::ServerAuth]);
    r
}

/// A step of making a self-signed certificate.
#[derive(Clone, Copy, Debug, PartialEq, Eq)]
pub enum SelfSignedStep {
    /// Making the parameters with the subject alternative names.
    San,
    /// Generating the key pair.
    KeyPair,
    /// Signing the certificate.
    Certificate,
    /// Checking the private key's DER.
    PrivateKey,
}

/// The message prefix of a failing step.
pub open spec fn step_prefix(step: SelfSignedStep) -> Seq<char> {
    match step {
        SelfSignedStep::San => "failed to create SAN: "@,
        SelfSignedStep::KeyPair => "failed to generate key pair: "@,
        SelfSignedStep::Certificate => "failed to generate self-signed certificate: "@,
        SelfSignedStep::PrivateKey => "failed to serialize private key: "@,
    }
}

/// The error of a failing step, with the outside message.
pub fn step_error(step: SelfSignedStep, detail: &str) -> (e: Error)
    ensures
        e@ == ErrorView::Config(step_prefix(step) + detail@),
{
    let prefix = match step {
        SelfSignedStep::San => "failed to create SAN: ",
        SelfSignedStep::KeyPair => "failed to generate key pair: ",
        SelfSignedStep::Certificate => "failed to generate self-signed certificate: ",
        SelfSignedStep::PrivateKey => "failed to serialize private key: ",
    };
    Error::config(join2(prefix, detail).as_str())
}

/// What making a self-signed certificate for `request` gives: the SAN step
/// fails exactly when rcgen refuses the names; past it, success is one
/// certificate, carrying the request (for a plain request) and the public
/// key of the returned PKCS#8 private key, which `PrivateKeyDer` accepts,
/// and a failure comes from one of the later steps, with its message.
pub open spec fn self_signed_outcome(request: RequestView, r: core::result::Result<TlsMaterial, Error>) -> bool {
    match san_refusal(request.subject_alt_names) {
        Some(t) => r matches Err(e) && e@ == ErrorView::Config(step_prefix(SelfSignedStep::San) + t),
        None => match r {
            Ok(m) => {
                &&& m.certs@.len() == 1
                &&& m.key_kind == KeyKind::Pkcs8
                &&& private_key_der_refusal(m.key@) is None
                &&& certificate_public_key(m.certs@[0]@) == public_key_of_private(m.key@)
                &&& plain_request(request) ==> certificate_request_of(m.certs@[0]@) == request
            },
            Err(e) => exists|s: SelfSignedStep, t: Seq<char>|
                s != SelfSignedStep::San && e@ == ErrorView::Config(step_prefix(s) + t),
        },
    }
}

fn copy_names(v: &Vec<String>) -> (r: Vec<String>)
    ensures
        r@.map_values(|s: String| s@) == v@.map_values(|s: String| s@),
{
    let mut r: Vec<String> = Vec::new();
    let n = v.len();
    for i in 0..n
        invariant
            n == v@.len(),
            r@.map_values(|s: String| s@) == v@.map_values(|s: String| s@).take(i as int),
    {
        let ghost before = r@.map_values(|s: String| s@);
        r.push(v[i].clone());
        assert(r@.map_values(|s: String| s@) =~= before.push(v@[i as int]@));
        assert(v@.map_values(|s: String| s@).take(i + 1) =~= v@.map_values(|s: String| s@).take(i as int).push(
            v@[i as int]@,
        ));
    }
    assert(v@.map_values(|s: String| s@).take(n as int) =~= v@.map_values(|s: String| s@));
    r
}

/// Makes a self-signed certificate for a request, with a freshly generated
/// key pair: rcgen's parameters get the request's subject alternative names,
/// common name, key usages and extended key usages, and are signed with the
/// key pair; the result is the certificate and the key pair's PKCS#8 private
/// key.
pub fn self_signed_material(request: &CertificateRequest) -> (r: Result<TlsMaterial, Error>)
    ensures
        self_signed_outcome(request@, r),
{
    let mut params = match certificate_params(copy_names(&request.subject_alt_names)) {
        Ok(p) => p,
        Err(t) => {
            return Err(step_error(SelfSignedStep::San, t.as_str()));
        },
    };
    set_common_name(&mut params, request.common_name.as_str());
    set_key_usages(&mut params, &request.key_usages);
    set_extended_key_usages(&mut params, &request.extended_key_usages);
    assert(params.written@ == request@);
    let key = match generate_key_pair() {
        Ok(k) => k,
        Err(t) => {
            let e = step_error(SelfSignedStep::KeyPair, t.as_str());
            assert(e@ == ErrorView::Config(step_prefix(SelfSignedStep::KeyPair) + t@));
            return Err(e);
        },
    };
    let cert = match self_signed_der(params, &key) {
        Ok(c) => c,
        Err(t) => {
            let e = step_error(SelfSignedStep::Certificate, t.as_str());
            assert(e@ == ErrorView::Config(step_prefix(SelfSignedStep::Certificate) + t@));
            return Err(e);
        },
    };
    match check_private_key_der(key.der.as_slice()) {
        Ok(()) => {},
        Err(t) => {
            let e = step_error(SelfSignedStep::PrivateKey, t.as_str());
            assert(e@ == ErrorView::Config(step_prefix(SelfSignedStep::PrivateKey) + t@));
            return Err(e);
        },
    }
    let m = TlsMaterial { certs: vec![cert], key: key.der, key_kind: KeyKind::Pkcs8 };
    assert(m.certs@[0] == cert);
    Ok(m)
}

/// What the server's self-signed certificate is made for: common name
/// `localhost`, valid for `localhost` and 127.0.0.1, for digital signatures
/// and server authentication only.
pub open spec fn server_certificate_request() -> RequestView {
    RequestView {
        common_name: "localhost"@,
        subject_alt_names: seq!["localhost"@, "127.0.0.1"@],
        key_usages: seq![KeyUsage::DigitalSignature],
        extended_key_usages: seq![ExtendedKeyUsage::ServerAuth],
    }
}

/// Makes the server's self-signed certificate: the request of
/// [`self_signed_request`] (common name `localhost`, valid for `localhost`
/// and 127.0.0.1, server authentication), with a freshly generated key pair.
pub fn generate_self_signed_cert() -> (r: Result<TlsMaterial, Error>)
    ensures
        self_signed_outcome(server_certificate_request(), r),
        plain_request(server_certificate_request()),
{
    proof {
        reveal_strlit("localhost");
        reveal_strlit("127.0.0.1");
    }
    self_signed_material(&self_signed_request())
}

} // verus!
