use crate::cert::{pem_certs, pem_private_key, read_cert_file, read_private_key_file, KeyFormat, PrivateKey};
use crate::err::ClockerError;
use std::sync::Arc;
use tokio_rustls::rustls::pki_types::{CertificateDer, PrivateKeyDer};
use tokio_rustls::rustls::ServerConfig;
use tokio_rustls::TlsAcceptor;
use vstd::prelude::*;

verus! {

#[verifier::external_type_specification]
#[verifier::external_body]
pub struct ExServerConfig(ServerConfig);

#[verifier::external_type_specification]
#[verifier::external_body]
pub struct ExRustlsError(tokio_rustls::rustls::Error);

#[verifier::external_type_specification]
#[verifier::external_body]
pub struct ExTlsAcceptor(TlsAcceptor);

/// Relies on rustls's ServerConfig::builder().with_no_client_auth()
/// .with_single_cert: a server configuration that asks no client certificate
/// and presents the given chain and key, or the reason rustls refused them.
/// With `ring` as the only crypto provider feature the builder finds its
/// provider and does not panic.
#[verifier::external_body]
fn single_cert_config(chain: Vec<Vec<u8>>, key: PrivateKey) -> (r: Result<ServerConfig, tokio_rustls::rustls::Error>)
{
    let certs: Vec<CertificateDer<'static>> = chain.into_iter().map(CertificateDer::from).collect();
    let key_der: PrivateKeyDer<'static> = match key.format {
        KeyFormat::Pkcs1 => PrivateKeyDer::Pkcs1(key.der.into()),
        KeyFormat::Sec1 => PrivateKeyDer::Sec1(key.der.into()),
        KeyFormat::Pkcs8 => PrivateKeyDer::Pkcs8(key.der.into()),
    };
    ServerConfig::builder().with_no_client_auth().with_single_cert(certs, key_der)
}

/// Relies on tokio_rustls's `From<Arc<ServerConfig>>` for TlsAcceptor: a
/// handle, cheap to clone, that drives handshakes with the configuration.
#[verifier::external_body]
fn acceptor_of(config: ServerConfig) -> (r: TlsAcceptor)
{
    TlsAcceptor::from(Arc::new(config))
}

/// What a build attempt by rustls comes to: its configuration, or
/// `UnexpectedRustls` whatever the reason it gave.
pub fn accept_config(built: Result<ServerConfig, tokio_rustls::rustls::Error>) -> (r: Result<ServerConfig, ClockerError>)
    ensures
        match built {
            Ok(config) => r == Ok::<ServerConfig, ClockerError>(config),
            Err(_) => r == Err::<ServerConfig, ClockerError>(ClockerError::UnexpectedRustls),
        },
{
    match built {
        Ok(config) => Ok(config),
        Err(_) => Err(ClockerError::UnexpectedRustls),
    }
}

/// Builds the server's TLS configuration from a certificate chain (leaf
/// first) and its private key. An empty chain is refused here; a key that
/// does not match the leaf, or a chain or key that rustls cannot use, is
/// refused by rustls. Both are `UnexpectedRustls`.
pub fn build_context(chain: Vec<Vec<u8>>, key: PrivateKey) -> (r: Result<ServerConfig, ClockerError>)
    ensures
        chain@.len() == 0 ==> r is Err,
        r matches Err(e) ==> e == ClockerError::UnexpectedRustls,
{
    if chain.len() == 0 {
        return Err(ClockerError::UnexpectedRustls);
    }
    accept_config(single_cert_config(chain, key))
}

/// Wraps a built configuration into the acceptor that every connection
/// shares.
pub fn make_acceptor(config: ServerConfig) -> (r: TlsAcceptor) {
    acceptor_of(config)
}

/// The error that loading and checking the server identity must end in,
/// where the PEM texts alone decide it; `None` where only rustls can tell.
pub open spec fn identity_error(cert_pem: Seq<u8>, key_pem: Seq<u8>) -> Option<ClockerError> {
    match pem_certs(cert_pem) {
        None => Some(ClockerError::MalformedPem),
        Some(chain) => match pem_private_key(key_pem) {
            None => Some(ClockerError::MalformedPem),
            Some(None) => Some(ClockerError::PrivateKeyPEMSectionNotFound),
            Some(Some(_)) => if chain.len() == 0 {
                Some(ClockerError::UnexpectedRustls)
            } else {
                None
            },
        },
    }
}

/// The whole startup identity step: parses the certificate chain and the key
/// from the two files' PEM text, builds the configuration and the acceptor.
/// Any failure comes back before a socket needs to exist.
pub fn get_tls_acceptor(cert_pem: &[u8], key_pem: &[u8]) -> (r: Result<TlsAcceptor, ClockerError>)
    ensures
        identity_error(cert_pem@, key_pem@) matches Some(e) ==> r == Err::<TlsAcceptor, ClockerError>(e),
        identity_error(cert_pem@, key_pem@) is None ==> (r is Ok || r == Err::<TlsAcceptor, ClockerError>(
            ClockerError::UnexpectedRustls,
        )),
{
    let chain = match read_cert_file(cert_pem) {
        Ok(chain) => chain,
        Err(e) => return Err(e),
    };
    let key = match read_private_key_file(key_pem) {
        Ok(key) => key,
        Err(e) => return Err(e),
    };
    proof {
        assert(chain@.len() == chain.deep_view().len());
    }
    match build_context(chain, key) {
        Ok(config) => Ok(make_acceptor(config)),
        Err(e) => Err(e),
    }
}

} // verus!
