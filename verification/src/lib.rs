//! Finds out which protocol versions and cipher suites a TLS server accepts.
//!
//! The library holds the decisions and the formats: the cipher suite catalog, the ClientHello
//! messages, how a server's answer is read, when an attempt is repeated, and the report. Sockets,
//! name resolution and the certificate handshake belong to the program around it.

pub mod cert;
pub mod laws;
pub mod probe;
pub mod retry;
pub mod scan;
pub mod text;
pub mod tls;
pub mod wire;
