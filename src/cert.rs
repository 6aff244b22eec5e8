use crate::err::ClockerError;
use tokio_rustls::rustls::pki_types::PrivateKeyDer;
use vstd::prelude::*;

verus! {

/// The encoding of a private key, as its PEM section label tells it.
#[derive(Clone, Copy, Debug, PartialEq, Eq, Structural)]
pub enum KeyFormat {
    /// "RSA PRIVATE KEY"
    Pkcs1,
    /// "EC PRIVATE KEY"
    Sec1,
    /// "PRIVATE KEY"
    Pkcs8,
}

/// A DER-encoded private key together with its encoding.
pub struct PrivateKey {
    pub format: KeyFormat,
    pub der: Vec<u8>,
}

impl View for PrivateKey {
    type V = (KeyFormat, Seq<u8>);

    open spec fn view(&self) -> (KeyFormat, Seq<u8>) {
        (self.format, self.der@)
    }
}

/// What scanning PEM text for certificates gives: the DER bytes of every
/// certificate section in file order, or `None` when a section is malformed.
pub uninterp spec fn pem_certs(pem: Seq<u8>) -> Option<Seq<Seq<u8>>>;

/// What scanning PEM text for a private key gives: `None` when a section
/// before the first key is malformed, `Some(None)` when no key section is
/// present, and otherwise the first key section's format and DER bytes.
pub uninterp spec fn pem_private_key(pem: Seq<u8>) -> Option<Option<(KeyFormat, Seq<u8>)>>;

/// Relies on rustls_pemfile::certs, collected until its first error: the
/// outcome depends on the bytes alone.
#[verifier::external_body]
fn scan_certificates(pem: &[u8]) -> (r: Option<Vec<Vec<u8>>>)
    ensures
        match r {
            Some(ders) => pem_certs(pem@) == Some(ders.deep_view()),
            None => pem_certs(pem@) is None,
        },
{
    let mut reader: &[u8] = pem;
    rustls_pemfile::certs(&mut reader)
        .map(|c| c.map(|der| der.to_vec()))
        .collect::<Result<Vec<Vec<u8>>, std::io::Error>>()
        .ok()
}

/// Relies on rustls_pemfile::private_key: the first RSA, EC or PKCS#8 key
/// section, or none; the outcome depends on the bytes alone.
#[verifier::external_body]
fn scan_private_key(pem: &[u8]) -> (r: Option<Option<PrivateKey>>)
    ensures
        match r {
            Some(Some(key)) => pem_private_key(pem@) == Some(Some(key@)),
            Some(None) => pem_private_key(pem@) == Some(None::<(KeyFormat, Seq<u8>)>),
            None => pem_private_key(pem@) is None,
        },
{
    let mut reader: &[u8] = pem;
    rustls_pemfile::private_key(&mut reader).ok().map(|found| found.map(|key| {
        let der = key.secret_der().to_vec();
        let format = match key {
            PrivateKeyDer::Pkcs1(_) => KeyFormat::Pkcs1,
            PrivateKeyDer::Sec1(_) => KeyFormat::Sec1,
            // the enum is non-exhaustive; its last variant is Pkcs8
            _ => KeyFormat::Pkcs8,
        };
        PrivateKey { format, der }
    }))
}

/// Parses the certificate chain out of the PEM text of a certificate file:
/// every certificate section, leaf first, in file order. A file without
/// certificates gives an empty chain; a malformed section is an error.
pub fn read_cert_file(pem: &[u8]) -> (r: Result<Vec<Vec<u8>>, ClockerError>)
    ensures
        match pem_certs(pem@) {
            Some(ders) => r matches Ok(chain) && chain.deep_view() == ders,
            None => r == Err::<Vec<Vec<u8>>, ClockerError>(ClockerError::MalformedPem),
        },
{
    match scan_certificates(pem) {
        Some(chain) => Ok(chain),
        None => Err(ClockerError::MalformedPem),
    }
}

/// Parses the first private key out of the PEM text of a key file. A file
/// that parses but holds no key section is `PrivateKeyPEMSectionNotFound`,
/// distinct from a malformed section.
pub fn read_private_key_file(pem: &[u8]) -> (r: Result<PrivateKey, ClockerError>)
    ensures
        match pem_private_key(pem@) {
            Some(Some(key)) => r matches Ok(k) && k@ == key,
            Some(None) => r == Err::<PrivateKey, ClockerError>(
                ClockerError::PrivateKeyPEMSectionNotFound,
            ),
            None => r == Err::<PrivateKey, ClockerError>(ClockerError::MalformedPem),
        },
{
    match scan_private_key(pem) {
        Some(Some(key)) => Ok(key),
        Some(None) => Err(ClockerError::PrivateKeyPEMSectionNotFound),
        None => Err(ClockerError::MalformedPem),
    }
}

} // verus!
