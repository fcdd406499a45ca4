//! The session with the receiver, as a machine that decides and leaves the
//! doing to its driver.
//!
//! An operation is begun by one of the methods of [`Gps`] that are named
//! after it. The method hands back an [`Action`]; the driver carries it out
//! and reports how it went by [`Gps::step`], which hands back the next
//! action, until the action is [`Action::Done`].

pub mod gps;
pub mod laws;
pub mod model;

pub use gps::Gps;
pub use model::{next, GpsModel};

use crate::cmd::parse::contents_of;
use crate::locus::logged_point::LoggedPoint;
use crate::locus::status::LoggerStatus;
use crate::Error;
use vstd::prelude::*;

verus! {

/// `0`, as a field.
pub const FIELD_ZERO: [u8; 1] = [0x30];

/// `1`, as a field.
pub const FIELD_ONE: [u8; 1] = [0x31];

/// `2`, as a field.
pub const FIELD_TWO: [u8; 1] = [0x32];

/// `314`, the number of the command that sets which sentences the receiver
/// sends on its own.
pub const NUM_SET_NMEA_OUTPUT: [u8; 3] = [0x33, 0x31, 0x34];

/// How many fields the command that sets the periodic output has: one for
/// every kind of sentence.
pub const NMEA_OUTPUT_FIELDS: usize = 19;

/// `187`, the number of the command that configures the logger.
pub const NUM_LOCUS_CONFIG: [u8; 3] = [0x31, 0x38, 0x37];

/// `184`, the number of the command that erases the log.
pub const NUM_LOCUS_ERASE_FLASH: [u8; 3] = [0x31, 0x38, 0x34];

/// `185`, the number of the command that stops the logger, or starts it.
pub const NUM_LOCUS_STOP_LOGGER: [u8; 3] = [0x31, 0x38, 0x35];

/// `183`, the number of the command that asks for the logger's status.
pub const NUM_LOCUS_QUERY_STATUS: [u8; 3] = [0x31, 0x38, 0x33];

/// `PMTKLOG`, the name of the reply that holds the logger's status.
pub const LOGGER_STATUS_NAME: [u8; 7] = [0x50, 0x4d, 0x54, 0x4b, 0x4c, 0x4f, 0x47];

/// `PMTK622`, the name of the command that asks for the log.
pub const LOCUS_DATA_QUERY_NAME: [u8; 7] = [0x50, 0x4d, 0x54, 0x4b, 0x36, 0x32, 0x32];

/// `PMTKLOX`, the name of the frames that carry the log.
pub const LOCUS_DATA_NAME: [u8; 7] = [0x50, 0x4d, 0x54, 0x4b, 0x4c, 0x4f, 0x58];

/// How many fields a frame of the log has at least: its kind, and a number.
pub const LOCUS_DATA_FIELDS: usize = 2;

/// `PMTK605`, the name of the command that asks for the firmware release.
pub const RELEASE_QUERY_NAME: [u8; 7] = [0x50, 0x4d, 0x54, 0x4b, 0x36, 0x30, 0x35];

/// `PMTK705`, the name of the reply that holds the firmware release.
pub const RELEASE_NAME: [u8; 7] = [0x50, 0x4d, 0x54, 0x4b, 0x37, 0x30, 0x35];

/// How many fields the firmware release has at least: release and build.
pub const RELEASE_FIELDS: usize = 2;

/// `PMTK101`, which restarts the receiver and keeps all saved data.
pub const HOT_START_NAME: [u8; 7] = [0x50, 0x4d, 0x54, 0x4b, 0x31, 0x30, 0x31];

/// `PMTK102`, which restarts the receiver and keeps everything but ephemeris.
pub const WARM_START_NAME: [u8; 7] = [0x50, 0x4d, 0x54, 0x4b, 0x31, 0x30, 0x32];

/// `PMTK103`, which restarts the receiver and keeps everything but time,
/// position, almanacs and ephemeris.
pub const COLD_START_NAME: [u8; 7] = [0x50, 0x4d, 0x54, 0x4b, 0x31, 0x30, 0x33];

/// `PMTK104`, which restarts the receiver and clears everything, its
/// configuration included.
pub const FULL_COLD_START_NAME: [u8; 7] = [0x50, 0x4d, 0x54, 0x4b, 0x31, 0x30, 0x34];

/// What an operation that succeeded hands back.
#[derive(Debug, PartialEq, Eq)]
pub enum Reply {
    /// Nothing but the news that it is done.
    Complete,
    /// The fields of the reply that was asked for.
    Fields(Vec<Vec<u8>>),
    /// The logger's status.
    Status(LoggerStatus),
}

/// What an operation that succeeded hands back, by its contents.
#[verifier::ext_equal]
pub enum ReplyModel {
    Complete,
    Fields(Seq<Seq<u8>>),
    Status(LoggerStatus),
}

impl View for Reply {
    type V = ReplyModel;

    open spec fn view(&self) -> ReplyModel {
        match *self {
            Reply::Complete => ReplyModel::Complete,
            Reply::Fields(fields) => ReplyModel::Fields(contents_of(fields@)),
            Reply::Status(status) => ReplyModel::Status(status),
        }
    }
}

/// What the driver is to do next.
#[derive(Debug, PartialEq, Eq)]
pub enum Action<TxError> {
    /// Write this frame to the transport, byte by byte. Answer with
    /// [`Event::Ready`] when it is out, with [`Event::Failed`] when the
    /// transport failed or blocked for too long.
    Send(Vec<u8>),
    /// Read bytes from the inbound ring until a frame closes. Answer with
    /// [`Event::Frame`], or with [`Event::Failed`] when the ring was empty for
    /// too long.
    Receive,
    /// Sleep for this many microseconds. Answer with [`Event::Ready`].
    Delay(u32),
    /// Discard what the inbound ring holds. Answer with [`Event::Ready`].
    Flush,
    /// Take these points of the log. Answer with [`Event::Ready`].
    Points {
        /// About how many points the whole log holds.
        estimate: u64,
        /// The points of one frame, in order.
        points: Vec<LoggedPoint>,
        /// How many points of the frame have a wrong checksum.
        mismatches: usize,
    },
    /// Nothing: the operation is over, and this is how it ended.
    Done(Result<Reply, Error<TxError>>),
}

/// What the driver is to do next, by its contents.
#[verifier::ext_equal]
pub enum Step<TxError> {
    Send(Seq<u8>),
    Receive,
    Delay(u32),
    Flush,
    Points { estimate: u64, points: Seq<LoggedPoint>, mismatches: usize },
    Done(Result<ReplyModel, Error<TxError>>),
}

impl<TxError> View for Action<TxError> {
    type V = Step<TxError>;

    open spec fn view(&self) -> Step<TxError> {
        match *self {
            Action::Send(frame) => Step::Send(frame@),
            Action::Receive => Step::Receive,
            Action::Delay(us) => Step::Delay(us),
            Action::Flush => Step::Flush,
            Action::Points { estimate, points, mismatches } => Step::Points {
                estimate,
                points: points@,
                mismatches,
            },
            Action::Done(Ok(reply)) => Step::Done(Ok(reply@)),
            Action::Done(Err(err)) => Step::Done(Err(err)),
        }
    }
}

/// How the action that was handed out last went.
#[derive(Debug, PartialEq, Eq)]
pub enum Event<TxError> {
    /// It was carried out.
    Ready,
    /// It failed.
    Failed(Error<TxError>),
    /// These are the bytes of the frame that was received.
    Frame(Vec<u8>),
}

/// How the action that was handed out last went, by its contents.
#[verifier::ext_equal]
pub enum EventModel<TxError> {
    Ready,
    Failed(Error<TxError>),
    Frame(Seq<u8>),
}

impl<TxError> View for Event<TxError> {
    type V = EventModel<TxError>;

    open spec fn view(&self) -> EventModel<TxError> {
        match *self {
            Event::Ready => EventModel::Ready,
            Event::Failed(err) => EventModel::Failed(err),
            Event::Frame(frame) => EventModel::Frame(frame@),
        }
    }
}

/// Where an operation stands: which action is out, and for what.
#[derive(Debug, Clone, Copy, PartialEq, Eq, Structural)]
pub enum Stage {
    /// No operation is under way.
    Idle,
    /// The command that disables the periodic output is being sent.
    DisableSend,
    /// Its acknowledgement is awaited.
    DisableReceive,
    /// The pause before it is sent again.
    DisablePause,
    /// The command of the operation is being sent.
    CommandSend,
    /// Its acknowledgement or reply is awaited.
    CommandReceive,
    /// The pause before it is sent again.
    CommandPause,
    /// The command that restarts the receiver is being sent.
    RebootSend,
    /// A frame is awaited that may say the receiver has booted.
    BootReceive,
    /// The pause after the receiver has booted.
    BootSettle,
    /// The inbound ring is being emptied after the boot.
    BootFlush,
    /// The receiver is being asked for its firmware release, to see whether
    /// it is ready.
    ReadySend,
    /// The firmware release is awaited.
    ReadyReceive,
    /// The pause before the receiver is asked again.
    ReadyPause,
    /// The pause before the receiver is restarted again.
    RebootPause,
    /// The command that asks for the log is being sent.
    LogsSend,
    /// The frame that opens the log is awaited.
    LogsStart,
    /// A frame of the log with points is awaited.
    LogsData,
    /// The points of a frame are being handed over.
    LogsHand,
    /// The frame that closes the log is awaited.
    LogsEnd,
    /// The inbound ring is being emptied.
    Flush,
}

/// What an operation is for.
#[derive(Debug, Clone, Copy, PartialEq, Eq, Structural)]
pub enum Goal {
    /// To have the periodic output disabled.
    Disable,
    /// To have a command acknowledged.
    Ack,
    /// To have a query replied to.
    Reply,
    /// To learn the logger's status.
    Status,
    /// To have the receiver restarted and ready.
    Reboot,
    /// To read the log.
    Logs,
}

} // verus!
