//! What the library promises, stated of calls: what a result must be for given arguments, and how
//! the results of calls are related. The statements speak of bytes, texts and fields.

pub mod answers;
pub mod building;
pub mod catalog;
pub mod certificate;
pub mod hello;
pub mod probing;
pub mod refusing;
pub mod retrying;
pub mod scanning;
pub mod text;
