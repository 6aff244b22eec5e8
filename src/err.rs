use vstd::prelude::*;

verus! {

/// The ways in which the server can fail, at startup or on one connection.
#[derive(Clone, Copy, Debug, PartialEq, Eq, Structural)]
pub enum ClockerError {
    /// A certificate or key file could not be opened or read, or a
    /// connection's read failed.
    UnexpectedIO,
    /// A PEM file holds a malformed section.
    MalformedPem,
    /// The key file parses but holds no private-key section.
    PrivateKeyPEMSectionNotFound,
    /// The TLS library refused the certificate chain and key.
    UnexpectedRustls,
    /// The listening socket could not be bound.
    CreateTCPListener,
    /// Accepting a new connection on the listening socket failed.
    AcceptNewConnection,
    /// The TLS handshake with one client failed.
    Handshake,
    /// The bytes a client sent are not valid UTF-8.
    UnexpectedFromUtf,
}

impl ClockerError {
    /// A short human-readable description of the error kind.
    pub fn describe(&self) -> (r: &'static str) {
        match self {
            ClockerError::UnexpectedIO => "unexpected io error",
            ClockerError::MalformedPem => "malformed pem section",
            ClockerError::PrivateKeyPEMSectionNotFound => "private key pem section not found",
            ClockerError::UnexpectedRustls => "tls configuration refused the certificate chain or key",
            ClockerError::CreateTCPListener => "create tcp listener error",
            ClockerError::AcceptNewConnection => "accept new connection",
            ClockerError::Handshake => "tls handshake failed",
            ClockerError::UnexpectedFromUtf => "message is not valid utf-8",
        }
    }
}

} // verus!
