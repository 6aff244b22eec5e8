//! A TLS-terminating echo server's core: loading the server identity from PEM
//! text, building the TLS acceptor from it, and the per-connection protocol
//! (handshake, one read, UTF-8 check, one echoed write) as a state machine.

pub mod cert;
pub mod connection;
pub mod err;
pub mod tls;
