//! Driver core for GPS modules that speak the MediaTek PMTK command protocol
//! and keep LOCUS track logs.
//!
//! The library decides; it does not touch the serial line. A driver owns the
//! line, a delay source and the ring that an interrupt fills with the bytes
//! received, and carries out what the library asks of it.
//!
//! - [`cmd`] writes and reads frames of the form `$NAME,field,...*CS\r\n`.
//! - [`pipeline`] assembles frames from the bytes of the line, resyncing on
//!   every `$`, and sends a frame byte by byte; both give up after a fixed
//!   time of waiting.
//! - [`transact`] tells what a frame that came back says, and when a command
//!   is tried again.
//! - [`boot`] watches the receiver boot.
//! - [`session`] runs whole operations: commands with their
//!   acknowledgements, queries, restarts, and the dump of the log.
//! - [`locus`] reads the log as the receiver dumps it, and [`logger`] reads
//!   an image of the flash that holds it.

pub mod boot;
pub mod cmd;
pub mod integer_percent;
pub mod locus;
pub mod logger;
pub mod pipeline;
pub mod session;
pub mod transact;
pub mod utc_date_time;

pub use cmd::parse::Error as ParseError;
pub use integer_percent::IntegerPercent;
pub use locus::logged_point::{Error as ParseLoggedPointError, LoggedPoint};
pub use locus::status::LoggerStatus;
pub use session::Gps;
pub use utc_date_time::UtcDateTime;

use vstd::prelude::*;

verus! {

/// Why an operation on the receiver failed.
#[derive(Debug, Clone, PartialEq, Eq, PartialOrd, Ord, Hash)]
pub enum Error<TxError> {
    /// The gps behaved in a way contrary to our understanding of the protocol.
    Protocol,
    GpsSaysInvalidCommand,
    GpsSaysUnsupportedCommand,
    GpsSaysActionFailed,
    BootFailed,
    ReadTimeout,
    WriteTimeout,
    Transmit(TxError),
    Parse(ParseError),
    ParseLoggedPoint(ParseLoggedPointError),
}

impl<TxError> Error<TxError> {
    /// Whether trying again may help. It may after a frame that was not the
    /// one awaited or could not be read, after a timeout, and after a boot
    /// that did not complete. It does not after the receiver has rejected the
    /// command, nor after the transport has failed.
    pub open spec fn retryable(self) -> bool {
        match self {
            Error::Protocol => true,
            Error::ReadTimeout => true,
            Error::WriteTimeout => true,
            Error::Parse(_) => true,
            Error::BootFailed => true,
            _ => false,
        }
    }

    /// Whether trying again may help.
    pub fn is_retryable(&self) -> (retryable: bool)
        ensures
            retryable == self.retryable(),
    {
        match self {
            Error::Protocol => true,
            Error::ReadTimeout => true,
            Error::WriteTimeout => true,
            Error::Parse(_) => true,
            Error::BootFailed => true,
            _ => false,
        }
    }
}

impl<TxError> From<ParseError> for Error<TxError> {
    fn from(err: ParseError) -> (error: Self) {
        Self::Parse(err)
    }
}

impl<TxError> vstd::std_specs::convert::FromSpecImpl<ParseError> for Error<TxError> {
    open spec fn obeys_from_spec() -> bool {
        true
    }

    open spec fn from_spec(err: ParseError) -> Self {
        Error::Parse(err)
    }
}

impl<TxError> From<ParseLoggedPointError> for Error<TxError> {
    fn from(err: ParseLoggedPointError) -> (error: Self) {
        Self::ParseLoggedPoint(err)
    }
}

impl<TxError> vstd::std_specs::convert::FromSpecImpl<ParseLoggedPointError> for Error<TxError> {
    open spec fn obeys_from_spec() -> bool {
        true
    }

    open spec fn from_spec(err: ParseLoggedPointError) -> Self {
        Error::ParseLoggedPoint(err)
    }
}

/// The size of the inbound ring, in bytes.
pub const RX_BUF_SIZE: usize = 1024;

/// How often a command is sent again before it is given up.
pub const MAX_CMD_TRIES: usize = 5;

/// How often the command that disables periodic output is sent again before
/// it is given up; unrequested sentences keep colliding with it.
pub const MAX_CMD_TRIES_WITHOUT_NMEA_DISABLED: usize = 20;

/// The microseconds a reader sleeps on an empty ring before it gives up.
pub const MAX_READ_CMD_US: u32 = 500_000;

/// The microseconds a writer sleeps on a blocked transport before it gives up.
pub const MAX_WRITE_CMD_US: u32 = 50_000;

/// The microseconds slept between two tries of a command.
pub const DELAY_BEFORE_RETRY_US: u32 = 80_000;

/// How many reads may fail while the receiver boots.
pub const MAX_READ_ERRORS_ON_BOOT: usize = 50;

/// Maximum number of undocumented packets before we get the documented boot
/// indicator packets.
pub const MAX_READ_SPURIOUS_BEFORE_BOOT: usize = 1_000;

/// The microseconds slept after boot before the receiver is asked whether it
/// is ready; this avoids some spurious messages.
pub const WAIT_BEFORE_CHECKING_BOOT_READY_US: u32 = 50_000;

/// Maximum number of undocumented packets after we get the documented boot
/// indicator packets.
pub const MAX_READ_SPURIOUS_AFTER_BOOT_READY: usize = 20;

/// The most points a data frame of the log carries: at most 24 chunks, and in
/// basic mode one point is 2 chunks.
pub const MAX_POINTS_PER_LOCUS_DATA_PACKET: usize = 12;

} // verus!
