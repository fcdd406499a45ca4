//! The LOCUS log as the receiver dumps it over the serial line.

pub mod logged_point;
pub mod status;
pub mod traffic;
