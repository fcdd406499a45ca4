//! The decoder for a LOCUS flash image.

pub mod laws;
pub mod packet;
pub mod parser;
pub mod status;

pub use packet::{Fix, Packet};
pub use status::Status;
