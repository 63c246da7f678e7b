//! The TLS configuration of the server: which files it is made of, what is
//! taken from them, and when it is refused.
//!
//! The caller reads the environment and the files. PEM text is decoded by
//! `rustls_pemfile`, and the configuration itself is made by `rustls`; what
//! is believed of the two is stated at each call.

use rustls::{RootCertStore, ServerConfig};
use vstd::prelude::*;

verus! {

/// Why no TLS configuration could be made.
#[derive(Clone, Copy, Debug, PartialEq, Eq, Structural)]
pub enum TlsError {
    /// The environment's `TLS_CERT_FILE` is not set.
    CertFileNotSet,
    /// The environment's `TLS_KEY_FILE` is not set.
    KeyFileNotSet,
    /// The certificate file is not well-formed PEM.
    BadCertificates,
    /// The key file is not well-formed PEM.
    BadPrivateKeys,
    /// The key file holds no PKCS#8 private key.
    NoPrivateKey,
    /// The file of the clients' certificate authorities is not well-formed
    /// PEM.
    BadClientCa,
    /// A certificate of the clients' certificate authorities is not accepted
    /// as a root of trust.
    RejectedClientCa,
    /// The private key is not accepted.
    RejectedKey,
}

/// The files that the TLS configuration is made of.
#[derive(Debug)]
pub struct TlsFiles {
    /// The server's certificate chain, as PEM.
    pub cert_file: String,
    /// The server's private key, as PEM.
    pub key_file: String,
    /// The certificate authorities of the clients, as PEM. Where it is set,
    /// clients must authenticate.
    pub client_ca_file: Option<String>,
}

/// Whether clients must present a certificate.
#[derive(Clone, Copy, Debug, PartialEq, Eq, Structural)]
pub enum ClientAuth {
    /// No client is asked for a certificate.
    NotAsked,
    /// Every client must present a certificate that one of the trusted
    /// authorities has issued.
    Required,
}

/// A TLS configuration, and whether it makes clients authenticate.
#[derive(Debug)]
pub struct TlsSetup {
    /// The configuration of the server.
    pub config: ServerConfig,
    /// Whether clients must present a certificate.
    pub client_auth: ClientAuth,
}

/// `rustls::RootCertStore`: a set of roots of trust. Nothing inside it is
/// read here.
#[verifier::external_type_specification]
#[verifier::external_body]
pub struct ExRootCertStore(rustls::RootCertStore);

/// `rustls::ServerConfig`: the configuration of a TLS server. Nothing inside
/// it is read here.
#[verifier::external_type_specification]
#[verifier::external_body]
pub struct ExServerConfig(rustls::ServerConfig);

/// `rustls::Error`: why `rustls` refused something. Nothing inside it is read
/// here.
#[verifier::external_type_specification]
#[verifier::external_body]
pub struct ExRustlsError(rustls::Error);

/// The certificates that `rustls_pemfile::certs` finds in the PEM text
/// `pem`, each in DER, in the order of the text; `None` where it fails.
pub uninterp spec fn pem_certificates(pem: Seq<u8>) -> Option<Seq<Seq<u8>>>;

/// The PKCS#8 private keys that `rustls_pemfile::pkcs8_private_keys` finds in
/// the PEM text `pem`, each in DER, in the order of the text; `None` where it
/// fails.
pub uninterp spec fn pem_pkcs8_keys(pem: Seq<u8>) -> Option<Seq<Seq<u8>>>;

/// What a root of trust is made of: the subject, the public-key info and the
/// name constraints of a certificate, each in DER.
pub type TrustAnchor = (Seq<u8>, Seq<u8>, Option<Seq<u8>>);

/// The root of trust that `rustls::RootCertStore::add` makes of the
/// certificate `der`; `None` where it refuses the certificate.
pub uninterp spec fn trust_anchor(der: Seq<u8>) -> Option<TrustAnchor>;

/// Whether `with_single_cert` of `rustls`'s server configuration builder can
/// take `key` as a private key: whether the key is in one of the encodings
/// that `rustls` supports.
pub uninterp spec fn key_accepted(key: Seq<u8>) -> bool;

/// The roots of trust that `store` holds, in the order in which they were
/// added.
pub uninterp spec fn trusted_roots(store: RootCertStore) -> Seq<TrustAnchor>;

/// The client verification that `config` was built with: `None` where no
/// client is asked for a certificate, else the roots of trust under one of
/// which every client must present a certificate.
pub uninterp spec fn client_trust(config: ServerConfig) -> Option<Seq<TrustAnchor>>;

/// The certificate chain that `config` presents to every client, each
/// certificate in DER.
pub uninterp spec fn served_chain(config: ServerConfig) -> Seq<Seq<u8>>;

/// Whether the certificate `der` is accepted as a root of trust.
pub open spec fn root_accepted(der: Seq<u8>) -> bool {
    trust_anchor(der) is Some
}

/// Decodes the certificates of a PEM text.
///
/// Calls `rustls_pemfile::certs` on the bytes. It returns every section
/// labelled `CERTIFICATE`, decoded from base64, and passes over other
/// sections. It fails where a section is not closed, a section's start line is
/// malformed or the base64 is invalid. A text without a certificate gives
/// an empty list. The result depends on the bytes alone and is named
/// `pem_certificates`.
#[verifier::external_body]
fn decode_certificates(pem: &[u8]) -> (certs: Option<Vec<Vec<u8>>>)
    ensures
        certs.deep_view() == pem_certificates(pem@),
{
    let mut reader = pem;
    rustls_pemfile::certs(&mut reader).ok()
}

/// Decodes the PKCS#8 private keys of a PEM text.
///
/// Calls `rustls_pemfile::pkcs8_private_keys` on the bytes. It returns every
/// section labelled `PRIVATE KEY`, decoded from base64, and passes over
/// other sections; it fails as `rustls_pemfile::certs` does. The result
/// depends on the bytes alone and is named `pem_pkcs8_keys`.
#[verifier::external_body]
fn decode_pkcs8_keys(pem: &[u8]) -> (keys: Option<Vec<Vec<u8>>>)
    ensures
        keys.deep_view() == pem_pkcs8_keys(pem@),
{
    let mut reader = pem;
    rustls_pemfile::pkcs8_private_keys(&mut reader).ok()
}

/// A store without any root of trust: `rustls::RootCertStore::empty`.
#[verifier::external_body]
fn empty_root_store() -> (store: RootCertStore)
    ensures
        trusted_roots(store) == Seq::<TrustAnchor>::empty(),
{
    RootCertStore::empty()
}

/// Adds the certificate `der` to `store` as a root of trust.
///
/// Calls `rustls::RootCertStore::add`. It parses the certificate and, where
/// that succeeds, appends to the store a trust anchor made of the
/// certificate's subject, public-key info and name constraints; the
/// certificate itself is not kept. Where it fails, the store is left as it
/// was. What the anchor is depends on the certificate alone and is named
/// `trust_anchor`.
#[verifier::external_body]
fn add_root(store: &mut RootCertStore, der: &Vec<u8>) -> (added: Result<(), rustls::Error>)
    ensures
        added is Ok <==> trust_anchor(der@) is Some,
        added is Ok ==> trusted_roots(*final(store)) == trusted_roots(*old(store)).push(
            trust_anchor(der@).unwrap(),
        ),
        added is Err ==> trusted_roots(*final(store)) == trusted_roots(*old(store)),
{
    store.add(&rustls::Certificate(der.clone()))
}

/// A server configuration with `rustls`'s safe defaults that asks no client
/// for a certificate and presents `chain` with `key`.
///
/// Calls `ServerConfig::builder`, `with_safe_defaults`,
/// `with_no_client_auth` and `with_single_cert`. Only the last can fail. It
/// fails where the key is in none of the encodings that `rustls` supports,
/// which `key_accepted` names; the chain is not inspected. It can also fail
/// on a key that is supported, where the system's random generator fails, so
/// success is not promised. The configuration that comes back verifies no
/// client and resolves every connection to `chain`.
#[verifier::external_body]
fn config_without_client_auth(chain: Vec<Vec<u8>>, key: Vec<u8>) -> (config: Result<
    ServerConfig,
    rustls::Error,
>)
    ensures
        config is Ok ==> key_accepted(key@),
        config is Ok ==> client_trust(config.unwrap()) is None,
        config is Ok ==> served_chain(config.unwrap()) == chain.deep_view(),
{
    let chain = chain.into_iter().map(rustls::Certificate).collect();
    ServerConfig::builder().with_safe_defaults().with_no_client_auth().with_single_cert(
        chain,
        rustls::PrivateKey(key),
    )
}

/// A server configuration with `rustls`'s safe defaults that makes every
/// client present a certificate issued under one of `roots`, and presents
/// `chain` with `key`.
///
/// Calls `AllowAnyAuthenticatedClient::new`, `ServerConfig::builder`,
/// `with_safe_defaults`, `with_client_cert_verifier` and `with_single_cert`.
/// Only the last can fail, as in `config_without_client_auth`. The
/// configuration that comes back holds the verifier made of `roots`, which
/// makes a certificate mandatory, and resolves every connection to `chain`.
#[verifier::external_body]
fn config_with_client_auth(roots: RootCertStore, chain: Vec<Vec<u8>>, key: Vec<u8>) -> (config:
    Result<ServerConfig, rustls::Error>)
    ensures
        config is Ok ==> key_accepted(key@),
        config is Ok ==> client_trust(config.unwrap()) == Some(trusted_roots(roots)),
        config is Ok ==> served_chain(config.unwrap()) == chain.deep_view(),
{
    let verifier = rustls::server::AllowAnyAuthenticatedClient::new(roots);
    let chain = chain.into_iter().map(rustls::Certificate).collect();
    ServerConfig::builder().with_safe_defaults().with_client_cert_verifier(
        std::sync::Arc::new(verifier),
    ).with_single_cert(chain, rustls::PrivateKey(key))
}

/// The view of an optional text.
pub open spec fn text_of(value: Option<String>) -> Option<Seq<char>> {
    match value {
        Some(text) => Some(text@),
        None => None,
    }
}

/// Names the files of the TLS configuration. The arguments are the values of
/// the environment's `TLS_CERT_FILE`, `TLS_KEY_FILE` and `CLIENT_CA_CERT`,
/// each `None` where it is not set. The first two are needed; the third
/// turns client authentication on.
pub fn tls_files(
    cert_file: Option<String>,
    key_file: Option<String>,
    client_ca: Option<String>,
) -> (files: Result<TlsFiles, TlsError>)
    ensures
        cert_file is None ==> files == Err::<TlsFiles, TlsError>(TlsError::CertFileNotSet),
        cert_file is Some && key_file is None ==> files == Err::<TlsFiles, TlsError>(
            TlsError::KeyFileNotSet,
        ),
        cert_file is Some && key_file is Some ==> files == Ok::<TlsFiles, TlsError>(
            TlsFiles {
                cert_file: cert_file.unwrap(),
                key_file: key_file.unwrap(),
                client_ca_file: client_ca,
            },
        ),
{
    match cert_file {
        None => Err(TlsError::CertFileNotSet),
        Some(cert_file) => match key_file {
            None => Err(TlsError::KeyFileNotSet),
            Some(key_file) => Ok(TlsFiles { cert_file, key_file, client_ca_file: client_ca }),
        },
    }
}

/// The certificates to use, given what the decoding of a PEM text gave:
/// all of them, or `error` where the decoding failed.
pub fn select_certificates(decoded: Option<Vec<Vec<u8>>>, error: TlsError) -> (certs: Result<
    Vec<Vec<u8>>,
    TlsError,
>)
    ensures
        match decoded {
            Some(list) => certs == Ok::<Vec<Vec<u8>>, TlsError>(list),
            None => certs == Err::<Vec<Vec<u8>>, TlsError>(error),
        },
{
    match decoded {
        Some(list) => Ok(list),
        None => Err(error),
    }
}

/// The private key to use, given what the decoding of a PEM text gave: the
/// first key. There is none where the decoding failed or found no key.
pub fn select_private_key(decoded: Option<Vec<Vec<u8>>>) -> (key: Result<Vec<u8>, TlsError>)
    ensures
        match decoded {
            None => key == Err::<Vec<u8>, TlsError>(TlsError::BadPrivateKeys),
            Some(list) => if list@.len() == 0 {
                key == Err::<Vec<u8>, TlsError>(TlsError::NoPrivateKey)
            } else {
                key is Ok && key.unwrap()@ == list@[0]@
            },
        },
{
    match decoded {
        None => Err(TlsError::BadPrivateKeys),
        Some(mut list) => {
            if list.len() == 0 {
                Err(TlsError::NoPrivateKey)
            } else {
                Ok(list.swap_remove(0))
            }
        },
    }
}

/// What `certificates_from_pem` returns for a PEM text that decodes to
/// `decoded`.
pub open spec fn chain_of(decoded: Option<Seq<Seq<u8>>>) -> Result<Seq<Seq<u8>>, TlsError> {
    match decoded {
        Some(list) => Ok(list),
        None => Err(TlsError::BadCertificates),
    }
}

/// What `private_key_from_pem` returns for a PEM text that decodes to
/// `decoded`.
pub open spec fn first_key_of(decoded: Option<Seq<Seq<u8>>>) -> Result<Seq<u8>, TlsError> {
    match decoded {
        None => Err(TlsError::BadPrivateKeys),
        Some(list) => if list.len() == 0 {
            Err(TlsError::NoPrivateKey)
        } else {
            Ok(list[0])
        },
    }
}

/// What `client_roots_from_pem` returns for a PEM text that decodes to
/// `decoded`.
pub open spec fn roots_of(decoded: Option<Seq<Seq<u8>>>) -> Result<Seq<Seq<u8>>, TlsError> {
    match decoded {
        Some(list) => Ok(list),
        None => Err(TlsError::BadClientCa),
    }
}

/// The view of a list of certificates, or of the error in its place.
pub open spec fn list_view(list: Result<Vec<Vec<u8>>, TlsError>) -> Result<
    Seq<Seq<u8>>,
    TlsError,
> {
    match list {
        Ok(certs) => Ok(certs.deep_view()),
        Err(error) => Err(error),
    }
}

/// The view of a key, or of the error in its place.
pub open spec fn key_view(key: Result<Vec<u8>, TlsError>) -> Result<Seq<u8>, TlsError> {
    match key {
        Ok(der) => Ok(der@),
        Err(error) => Err(error),
    }
}

/// The server's certificate chain from the PEM text of the certificate file:
/// every certificate in it, in order. A text without a certificate gives an
/// empty chain.
pub fn certificates_from_pem(pem: &[u8]) -> (chain: Result<Vec<Vec<u8>>, TlsError>)
    ensures
        list_view(chain) == chain_of(pem_certificates(pem@)),
{
    select_certificates(decode_certificates(pem), TlsError::BadCertificates)
}

/// The server's private key from the PEM text of the key file: the first
/// PKCS#8 key in it.
pub fn private_key_from_pem(pem: &[u8]) -> (key: Result<Vec<u8>, TlsError>)
    ensures
        key_view(key) == first_key_of(pem_pkcs8_keys(pem@)),
{
    let decoded = decode_pkcs8_keys(pem);
    proof {
        if decoded is Some && decoded.unwrap()@.len() > 0 {
            assert(decoded.deep_view().unwrap()[0] == decoded.unwrap()@[0]@);
        }
    }
    select_private_key(decoded)
}

/// The certificates of the clients' certificate authorities from the PEM
/// text of their file: every certificate in it, in order.
pub fn client_roots_from_pem(pem: &[u8]) -> (roots: Result<Vec<Vec<u8>>, TlsError>)
    ensures
        list_view(roots) == roots_of(pem_certificates(pem@)),
{
    select_certificates(decode_certificates(pem), TlsError::BadClientCa)
}

/// Whether every certificate of `roots` is accepted as a root of trust.
pub open spec fn all_roots_accepted(roots: Seq<Seq<u8>>) -> bool {
    forall|i: int| 0 <= i < roots.len() ==> root_accepted(#[trigger] roots[i])
}

/// The roots of trust that the certificates `roots` make, in their order.
pub open spec fn anchors_of(roots: Seq<Seq<u8>>) -> Seq<TrustAnchor> {
    Seq::new(roots.len(), |i: int| trust_anchor(roots[i]).unwrap())
}

/// A store that trusts what `roots` make, in their order. It is refused where
/// one of them is not accepted as a root of trust.
pub fn root_store(roots: &Vec<Vec<u8>>) -> (store: Result<RootCertStore, TlsError>)
    ensures
        store is Ok <==> all_roots_accepted(roots.deep_view()),
        store is Ok ==> trusted_roots(store.unwrap()) == anchors_of(roots.deep_view()),
        store is Err ==> store.unwrap_err() == TlsError::RejectedClientCa,
{
    let mut store = empty_root_store();
    let mut i: usize = 0;
    while i < roots.len()
        invariant
            i <= roots.len(),
            all_roots_accepted(roots.deep_view().take(i as int)),
            trusted_roots(store) == anchors_of(roots.deep_view().take(i as int)),
        decreases roots.len() - i,
    {
        assert(roots.deep_view()[i as int] == roots@[i as int]@);
        let ghost before = trusted_roots(store);
        match add_root(&mut store, &roots[i]) {
            Ok(_) => {},
            Err(_) => {
                return Err(TlsError::RejectedClientCa);
            },
        }
        i = i + 1;
        assert(roots.deep_view().take(i as int) =~= roots.deep_view().take(i - 1).push(
            roots@[i - 1]@,
        ));
        assert(anchors_of(roots.deep_view().take(i as int)) =~= before.push(
            trust_anchor(roots@[i - 1]@).unwrap(),
        ));
    }
    assert(roots.deep_view().take(i as int) =~= roots.deep_view());
    Ok(store)
}

/// The refusal that the arguments of `create_tls_config` alone decide: a
/// root that is not accepted, else a key that is not accepted; `None` where
/// both are.
pub open spec fn tls_refusal(key: Seq<u8>, client_roots: Option<Seq<Seq<u8>>>) -> Option<
    TlsError,
> {
    if client_roots is Some && !all_roots_accepted(client_roots.unwrap()) {
        Some(TlsError::RejectedClientCa)
    } else if !key_accepted(key) {
        Some(TlsError::RejectedKey)
    } else {
        None
    }
}

/// The client verification that `create_tls_config` sets up for
/// `client_roots`: none without them, else under the roots that they make.
pub open spec fn wanted_trust(client_roots: Option<Seq<Seq<u8>>>) -> Option<Seq<TrustAnchor>> {
    match client_roots {
        Some(roots) => Some(anchors_of(roots)),
        None => None,
    }
}

/// Whether `setup` is a configuration that presents `chain` and verifies
/// clients as `client_roots` ask: with them, every client must present a
/// certificate issued under one of the roots that they make; without them,
/// no client is asked for one.
pub open spec fn is_setup_for(
    setup: TlsSetup,
    chain: Seq<Seq<u8>>,
    client_roots: Option<Seq<Seq<u8>>>,
) -> bool {
    &&& served_chain(setup.config) == chain
    &&& client_trust(setup.config) == wanted_trust(client_roots)
    &&& setup.client_auth == if client_roots is Some {
        ClientAuth::Required
    } else {
        ClientAuth::NotAsked
    }
}

/// The view of a list of certificates, where there is one.
pub open spec fn roots_view(client_roots: Option<Vec<Vec<u8>>>) -> Option<Seq<Seq<u8>>> {
    match client_roots {
        Some(roots) => Some(roots.deep_view()),
        None => None,
    }
}

/// What is answered for what `rustls` built: the configuration with the
/// record of its client verification, or the refusal of the key.
pub fn tls_setup_of(built: Result<ServerConfig, rustls::Error>, client_auth: ClientAuth) -> (setup:
    Result<TlsSetup, TlsError>)
    ensures
        match built {
            Ok(config) => setup is Ok && setup.unwrap().config == config
                && setup.unwrap().client_auth == client_auth,
            Err(_) => setup is Err && setup.unwrap_err() == TlsError::RejectedKey,
        },
{
    match built {
        Ok(config) => Ok(TlsSetup { config, client_auth }),
        Err(_) => Err(TlsError::RejectedKey),
    }
}

/// Makes the TLS configuration of the server, which presents `chain` with
/// `key`. Where `client_roots` is given, every client must present a
/// certificate issued under one of them; else no client is asked for one.
///
/// A root that is not accepted refuses the configuration, and so does, after
/// the roots, a key that is not accepted. Where both are accepted `rustls`
/// decides, and can still refuse the key; what it builds verifies clients as
/// asked.
pub fn create_tls_config(
    chain: Vec<Vec<u8>>,
    key: Vec<u8>,
    client_roots: Option<Vec<Vec<u8>>>,
) -> (setup: Result<TlsSetup, TlsError>)
    ensures
        match tls_refusal(key@, roots_view(client_roots)) {
            Some(error) => setup is Err && setup.unwrap_err() == error,
            None => match setup {
                Ok(made) => is_setup_for(made, chain.deep_view(), roots_view(client_roots)),
                Err(error) => error == TlsError::RejectedKey,
            },
        },
{
    match client_roots {
        Some(roots) => {
            let store = match root_store(&roots) {
                Ok(store) => store,
                Err(error) => {
                    return Err(error);
                },
            };
            let built = config_with_client_auth(store, chain, key);
            tls_setup_of(built, ClientAuth::Required)
        },
        None => {
            let built = config_without_client_auth(chain, key);
            tls_setup_of(built, ClientAuth::NotAsked)
        },
    }
}

/// What the operator is told of `error`.
pub open spec fn message_of(error: TlsError) -> Seq<char> {
    match error {
        TlsError::CertFileNotSet => "TLS_CERT_FILE not set"@,
        TlsError::KeyFileNotSet => "TLS_KEY_FILE not set"@,
        TlsError::BadCertificates => "the certificate file is not valid PEM"@,
        TlsError::BadPrivateKeys => "the key file is not valid PEM"@,
        TlsError::NoPrivateKey => "the key file holds no PKCS#8 private key"@,
        TlsError::BadClientCa => "the client CA file is not valid PEM"@,
        TlsError::RejectedClientCa => "a client CA certificate is invalid"@,
        TlsError::RejectedKey => "invalid private key"@,
    }
}

impl TlsError {
    /// What to tell the operator.
    pub fn message(&self) -> (text: String)
        ensures
            text@ == message_of(*self),
    {
        match self {
            TlsError::CertFileNotSet => "TLS_CERT_FILE not set".to_string(),
            TlsError::KeyFileNotSet => "TLS_KEY_FILE not set".to_string(),
            TlsError::BadCertificates => "the certificate file is not valid PEM".to_string(),
            TlsError::BadPrivateKeys => "the key file is not valid PEM".to_string(),
            TlsError::NoPrivateKey => "the key file holds no PKCS#8 private key".to_string(),
            TlsError::BadClientCa => "the client CA file is not valid PEM".to_string(),
            TlsError::RejectedClientCa => "a client CA certificate is invalid".to_string(),
            TlsError::RejectedKey => "invalid private key".to_string(),
        }
    }
}

} // verus!
