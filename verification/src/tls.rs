//! Protocol versions, cipher suites and hello messages.

pub mod cipher_suite;
pub mod ciphers;
pub mod clienthello;
pub mod serverhello;
pub mod version;

pub use cipher_suite::{CipherSuite, Security};
pub use version::TlsVersion;
