//! The server's certificate: how it is fetched, what is read out of it, and how it is shown.

pub mod certificate;
pub mod display;

pub use certificate::Certificate;
