//! The session by its contents, and how it moves from one event to the next.

use super::{EventModel, Goal, Reply, ReplyModel, Stage, Step};
use super::{FIELD_ONE, FIELD_TWO, FIELD_ZERO, LOCUS_DATA_FIELDS, LOCUS_DATA_NAME};
use super::{LOCUS_DATA_QUERY_NAME, LOGGER_STATUS_NAME, NMEA_OUTPUT_FIELDS, NUM_SET_NMEA_OUTPUT};
use super::{RELEASE_FIELDS, RELEASE_NAME, RELEASE_QUERY_NAME};
use crate::boot::{BootVerdict, BootWatch};
use crate::cmd::parse::decimal_u32;
use crate::cmd::serialize::encode;
use crate::locus::logged_point::{failure_of, points_kept, points_read, sound_points};
use crate::locus::logged_point::Error as PointError;
use crate::transact::{ack_of, mtk_name_of, reply_of, status_of};
use crate::transact::{Retries, Verdict, LOGGER_STATUS_FIELDS};
use crate::{Error, ParseError};
use crate::{DELAY_BEFORE_RETRY_US, MAX_CMD_TRIES, MAX_CMD_TRIES_WITHOUT_NMEA_DISABLED};
use crate::{MAX_POINTS_PER_LOCUS_DATA_PACKET, MAX_READ_SPURIOUS_AFTER_BOOT_READY};
use crate::WAIT_BEFORE_CHECKING_BOOT_READY_US;
use vstd::prelude::*;

verus! {

/// The session with the receiver, by its contents.
#[verifier::ext_equal]
pub struct GpsModel {
    /// Whether the receiver has been told not to send sentences on its own.
    pub disabled_nmea_output: bool,
    /// Whether points of the log with a wrong checksum are handed on.
    pub keep_mismatched: bool,
    pub stage: Stage,
    pub goal: Goal,
    /// The frame of the operation's command.
    pub frame: Seq<u8>,
    /// The number whose acknowledgement is awaited.
    pub ack_for: Seq<u8>,
    /// The name of the reply that is awaited.
    pub reply_name: Seq<u8>,
    /// How many fields the reply that is awaited has at least.
    pub min_fields: usize,
    /// The tries of the command that is being exchanged.
    pub tries: Retries,
    /// The tries of the restart.
    pub reboots: Retries,
    pub boot: BootWatch,
    /// How many frames with points the log has.
    pub packet_count: u32,
    /// The number of the frame with points that comes next.
    pub next_packet: u32,
    /// What is wrong with the frame whose points are being handed over, if
    /// anything.
    pub failing: Option<PointError>,
}

/// The fields of the command that disables the periodic output: a `0` for
/// every kind of sentence.
pub open spec fn nmea_output_off() -> Seq<Seq<u8>> {
    Seq::new(NMEA_OUTPUT_FIELDS as nat, |i: int| FIELD_ZERO@)
}

/// The frame of the command that disables the periodic output.
pub open spec fn disable_frame() -> Seq<u8> {
    encode(mtk_name_of(NUM_SET_NMEA_OUTPUT@), nmea_output_off())
}

/// The frame of the command that asks for the whole log.
pub open spec fn logs_frame() -> Seq<u8> {
    encode(LOCUS_DATA_QUERY_NAME@, seq![FIELD_ZERO@])
}

/// The frame of the command that asks for the firmware release.
pub open spec fn release_frame() -> Seq<u8> {
    encode(RELEASE_QUERY_NAME@, Seq::empty())
}

/// About how many points a log of `packet_count` frames holds.
pub open spec fn point_estimate(packet_count: u32) -> u64 {
    (packet_count * MAX_POINTS_PER_LOCUS_DATA_PACKET) as u64
}

/// The operation ends with `result`.
pub open spec fn finished<TxError>(
    model: GpsModel,
    result: Result<ReplyModel, Error<TxError>>,
) -> (GpsModel, Step<TxError>) {
    (GpsModel { stage: Stage::Idle, ..model }, Step::Done(result))
}

/// The command that disables the periodic output is sent for the first time.
/// It is given more tries than other commands, as unrequested sentences keep
/// colliding with it.
pub open spec fn disabling<TxError>(model: GpsModel) -> (GpsModel, Step<TxError>) {
    (
        GpsModel {
            stage: Stage::DisableSend,
            tries: Retries::fresh(MAX_CMD_TRIES_WITHOUT_NMEA_DISABLED).begun(),
            ..model
        },
        Step::Send(disable_frame()),
    )
}

/// The command of the operation is sent for the first time.
pub open spec fn commanding<TxError>(model: GpsModel) -> (GpsModel, Step<TxError>) {
    (
        GpsModel {
            stage: Stage::CommandSend,
            tries: Retries::fresh(MAX_CMD_TRIES).begun(),
            ..model
        },
        Step::Send(model.frame),
    )
}

/// The command that asks for the log is sent. It is sent once only: a dump
/// is expensive.
pub open spec fn dumping<TxError>(model: GpsModel) -> (GpsModel, Step<TxError>) {
    (GpsModel { stage: Stage::LogsSend, ..model }, Step::Send(logs_frame()))
}

/// A try to restart the receiver begins. The receiver will send sentences on
/// its own again.
pub open spec fn rebooting<TxError>(model: GpsModel) -> (GpsModel, Step<TxError>) {
    (
        GpsModel {
            stage: Stage::RebootSend,
            disabled_nmea_output: false,
            reboots: model.reboots.begun(),
            ..model
        },
        Step::Send(model.frame),
    )
}

/// The periodic output is known to be disabled: the operation goes on to
/// what it is for.
pub open spec fn after_disabled<TxError>(model: GpsModel) -> (GpsModel, Step<TxError>) {
    match model.goal {
        Goal::Disable => finished(model, Ok(ReplyModel::Complete)),
        Goal::Reboot => finished(model, Ok(ReplyModel::Complete)),
        Goal::Logs => dumping(model),
        _ => commanding(model),
    }
}

/// An operation begins whose goal and command are set in `model`. But for a
/// restart, the periodic output is disabled first unless it is already.
pub open spec fn begun<TxError>(model: GpsModel) -> (GpsModel, Step<TxError>) {
    if model.goal == Goal::Reboot {
        rebooting(GpsModel { reboots: Retries::fresh(MAX_CMD_TRIES), ..model })
    } else if model.disabled_nmea_output {
        after_disabled(model)
    } else {
        disabling(model)
    }
}

/// A try to restart the receiver has failed with `err`: after a pause the
/// whole sequence starts anew, unless the restart is given up.
pub open spec fn reboot_failed<TxError>(model: GpsModel, err: Error<TxError>) -> (
    GpsModel,
    Step<TxError>,
) {
    match model.reboots.verdict(err) {
        Verdict::Again => (
            GpsModel { stage: Stage::RebootPause, ..model },
            Step::Delay(DELAY_BEFORE_RETRY_US),
        ),
        Verdict::GiveUp => finished(model, Err(err)),
    }
}

/// A command has been given up with `err`.
pub open spec fn command_failed<TxError>(model: GpsModel, err: Error<TxError>) -> (
    GpsModel,
    Step<TxError>,
) {
    if model.goal == Goal::Reboot {
        reboot_failed(model, err)
    } else {
        finished(model, Err(err))
    }
}

/// A try of a command has failed with `err`: after a pause, for which the
/// stage is `pause`, it is sent again, unless it is given up.
pub open spec fn try_failed<TxError>(model: GpsModel, err: Error<TxError>, pause: Stage) -> (
    GpsModel,
    Step<TxError>,
) {
    match model.tries.verdict(err) {
        Verdict::Again => (GpsModel { stage: pause, ..model }, Step::Delay(DELAY_BEFORE_RETRY_US)),
        Verdict::GiveUp => command_failed(model, err),
    }
}

/// A frame came in while the acknowledgement of the command that disables
/// the periodic output was awaited.
pub open spec fn disable_answered<TxError>(model: GpsModel, frame: Seq<u8>) -> (
    GpsModel,
    Step<TxError>,
) {
    match ack_of::<TxError>(frame, NUM_SET_NMEA_OUTPUT@) {
        Ok(()) => after_disabled(GpsModel { disabled_nmea_output: true, ..model }),
        Err(err) => try_failed(model, err, Stage::DisablePause),
    }
}

/// A frame came in while the answer to the command of the operation was
/// awaited.
pub open spec fn command_answered<TxError>(model: GpsModel, frame: Seq<u8>) -> (
    GpsModel,
    Step<TxError>,
) {
    match model.goal {
        Goal::Status => match reply_of::<TxError>(
            frame,
            LOGGER_STATUS_NAME@,
            LOGGER_STATUS_FIELDS as nat,
        ) {
            Err(err) => try_failed(model, err, Stage::CommandPause),
            Ok(fields) => match status_of(fields) {
                Ok(status) => finished(model, Ok(ReplyModel::Status(status))),
                Err(err) => finished(model, Err(Error::Parse(err))),
            },
        },
        Goal::Reply => match reply_of::<TxError>(
            frame,
            model.reply_name,
            model.min_fields as nat,
        ) {
            Err(err) => try_failed(model, err, Stage::CommandPause),
            Ok(fields) => finished(model, Ok(ReplyModel::Fields(fields))),
        },
        _ => match ack_of::<TxError>(frame, model.ack_for) {
            Err(err) => try_failed(model, err, Stage::CommandPause),
            Ok(()) => finished(model, Ok(ReplyModel::Complete)),
        },
    }
}

/// The watch for the boot has changed, or begins: what follows from how it
/// stands. Once the receiver has booted, it is given a moment before it is
/// asked anything.
pub open spec fn boot_watched<TxError>(model: GpsModel) -> (GpsModel, Step<TxError>) {
    match model.boot.verdict() {
        BootVerdict::Booted => (
            GpsModel { stage: Stage::BootSettle, ..model },
            Step::Delay(WAIT_BEFORE_CHECKING_BOOT_READY_US),
        ),
        BootVerdict::Failed => reboot_failed(model, Error::BootFailed),
        BootVerdict::Waiting => (GpsModel { stage: Stage::BootReceive, ..model }, Step::Receive),
    }
}

/// A frame came in while the firmware release was awaited. The release
/// itself is of no interest: that it came shows that the receiver is ready,
/// and the periodic output is disabled next.
pub open spec fn ready_answered<TxError>(model: GpsModel, frame: Seq<u8>) -> (
    GpsModel,
    Step<TxError>,
) {
    match reply_of::<TxError>(frame, RELEASE_NAME@, RELEASE_FIELDS as nat) {
        Err(err) => try_failed(model, err, Stage::ReadyPause),
        Ok(_) => if model.disabled_nmea_output {
            after_disabled(model)
        } else {
            disabling(model)
        },
    }
}

/// The next frame of the log is asked for: one with points as long as the
/// log has more of them, then the one that closes the log.
pub open spec fn logs_wanted<TxError>(model: GpsModel) -> (GpsModel, Step<TxError>) {
    if model.next_packet < model.packet_count {
        (GpsModel { stage: Stage::LogsData, ..model }, Step::Receive)
    } else {
        (GpsModel { stage: Stage::LogsEnd, ..model }, Step::Receive)
    }
}

/// A frame came in while the frame that opens the log was awaited. Its kind
/// is `0`, and its second field says how many frames with points follow.
pub open spec fn logs_opened<TxError>(model: GpsModel, frame: Seq<u8>) -> (
    GpsModel,
    Step<TxError>,
) {
    match reply_of::<TxError>(frame, LOCUS_DATA_NAME@, LOCUS_DATA_FIELDS as nat) {
        Err(err) => finished(model, Err(err)),
        Ok(fields) => if fields[0] != FIELD_ZERO@ {
            finished(model, Err(Error::Protocol))
        } else {
            match decimal_u32(fields[1]) {
                None => finished(model, Err(Error::Parse(ParseError::ParseField))),
                Some(count) => logs_wanted(
                    GpsModel { packet_count: count, next_packet: 0, ..model },
                ),
            }
        },
    }
}

/// A frame came in while a frame with points was awaited. Its kind is `1`,
/// its second field is its number, which is the one that comes next, and
/// its other fields are the chunks of its points. The points that are read
/// from it are handed over, also where something is wrong with a later chunk
/// of the frame; what is wrong is kept until they have been taken.
pub open spec fn logs_read<TxError>(model: GpsModel, frame: Seq<u8>) -> (GpsModel, Step<TxError>) {
    match reply_of::<TxError>(frame, LOCUS_DATA_NAME@, LOCUS_DATA_FIELDS as nat) {
        Err(err) => finished(model, Err(err)),
        Ok(fields) => if fields[0] != FIELD_ONE@ {
            finished(model, Err(Error::Protocol))
        } else {
            match decimal_u32(fields[1]) {
                None => finished(model, Err(Error::Parse(ParseError::ParseField))),
                Some(number) => if number != model.next_packet {
                    finished(model, Err(Error::Protocol))
                } else {
                    (
                        GpsModel {
                            stage: Stage::LogsHand,
                            next_packet: if model.next_packet < u32::MAX {
                                (model.next_packet + 1) as u32
                            } else {
                                model.next_packet
                            },
                            failing: failure_of(fields.skip(2)),
                            ..model
                        },
                        Step::Points {
                            estimate: point_estimate(model.packet_count),
                            points: points_kept(
                                points_read(fields.skip(2)),
                                model.keep_mismatched,
                            ),
                            mismatches: (points_read(fields.skip(2)).len() - sound_points(
                                points_read(fields.skip(2)),
                            ).len()) as usize,
                        },
                    )
                },
            }
        },
    }
}

/// The points of a frame have been taken: the operation ends with what was
/// wrong with the frame, or goes on to the next frame where nothing was.
pub open spec fn logs_handed<TxError>(model: GpsModel) -> (GpsModel, Step<TxError>) {
    match model.failing {
        Some(err) => finished(model, Err(Error::ParseLoggedPoint(err))),
        None => logs_wanted(model),
    }
}

/// A frame came in while the frame that closes the log was awaited. Its
/// kind is `2`.
pub open spec fn logs_closed<TxError>(model: GpsModel, frame: Seq<u8>) -> (
    GpsModel,
    Step<TxError>,
) {
    match reply_of::<TxError>(frame, LOCUS_DATA_NAME@, LOCUS_DATA_FIELDS as nat) {
        Err(err) => finished(model, Err(err)),
        Ok(fields) => if fields[0] != FIELD_TWO@ {
            finished(model, Err(Error::Protocol))
        } else {
            finished(model, Ok(ReplyModel::Complete))
        },
    }
}

/// The session after `event`, and what the driver is to do next.
///
/// An event that cannot answer the action that is out ends the operation
/// with [`Error::Protocol`]; so does any event while no operation is under
/// way.
pub open spec fn next<TxError>(model: GpsModel, event: EventModel<TxError>) -> (
    GpsModel,
    Step<TxError>,
) {
    match (model.stage, event) {
        (Stage::DisableSend, EventModel::Ready) => (
            GpsModel { stage: Stage::DisableReceive, ..model },
            Step::Receive,
        ),
        (Stage::DisableSend, EventModel::Failed(err)) => try_failed(model, err, Stage::DisablePause),
        (Stage::DisableReceive, EventModel::Frame(frame)) => disable_answered(model, frame),
        (Stage::DisableReceive, EventModel::Failed(err)) => try_failed(model, err, Stage::DisablePause),
        (Stage::DisablePause, EventModel::Ready) => (
            GpsModel { stage: Stage::DisableSend, tries: model.tries.begun(), ..model },
            Step::Send(disable_frame()),
        ),
        (Stage::CommandSend, EventModel::Ready) => (
            GpsModel { stage: Stage::CommandReceive, ..model },
            Step::Receive,
        ),
        (Stage::CommandSend, EventModel::Failed(err)) => try_failed(model, err, Stage::CommandPause),
        (Stage::CommandReceive, EventModel::Frame(frame)) => command_answered(model, frame),
        (Stage::CommandReceive, EventModel::Failed(err)) => try_failed(model, err, Stage::CommandPause),
        (Stage::CommandPause, EventModel::Ready) => (
            GpsModel { stage: Stage::CommandSend, tries: model.tries.begun(), ..model },
            Step::Send(model.frame),
        ),
        (Stage::RebootSend, EventModel::Ready) => boot_watched(
            GpsModel { boot: BootWatch::fresh(), ..model },
        ),
        (Stage::RebootSend, EventModel::Failed(err)) => reboot_failed(model, err),
        (Stage::BootReceive, EventModel::Frame(frame)) => boot_watched(
            GpsModel { boot: model.boot.observed(frame), ..model },
        ),
        (Stage::BootReceive, EventModel::Failed(_)) => boot_watched(
            GpsModel { boot: model.boot.missed(), ..model },
        ),
        (Stage::BootSettle, EventModel::Ready) => (
            GpsModel { stage: Stage::BootFlush, ..model },
            Step::Flush,
        ),
        (Stage::BootFlush, EventModel::Ready) => (
            GpsModel {
                stage: Stage::ReadySend,
                tries: Retries::fresh(MAX_READ_SPURIOUS_AFTER_BOOT_READY).begun(),
                ..model
            },
            Step::Send(release_frame()),
        ),
        (Stage::ReadySend, EventModel::Ready) => (
            GpsModel { stage: Stage::ReadyReceive, ..model },
            Step::Receive,
        ),
        (Stage::ReadySend, EventModel::Failed(err)) => try_failed(model, err, Stage::ReadyPause),
        (Stage::ReadyReceive, EventModel::Frame(frame)) => ready_answered(model, frame),
        (Stage::ReadyReceive, EventModel::Failed(err)) => try_failed(model, err, Stage::ReadyPause),
        (Stage::ReadyPause, EventModel::Ready) => (
            GpsModel { stage: Stage::ReadySend, tries: model.tries.begun(), ..model },
            Step::Send(release_frame()),
        ),
        (Stage::RebootPause, EventModel::Ready) => rebooting(model),
        (Stage::LogsSend, EventModel::Ready) => (
            GpsModel { stage: Stage::LogsStart, ..model },
            Step::Receive,
        ),
        (Stage::LogsSend, EventModel::Failed(err)) => finished(model, Err(err)),
        (Stage::LogsStart, EventModel::Frame(frame)) => logs_opened(model, frame),
        (Stage::LogsStart, EventModel::Failed(err)) => finished(model, Err(err)),
        (Stage::LogsData, EventModel::Frame(frame)) => logs_read(model, frame),
        (Stage::LogsData, EventModel::Failed(err)) => finished(model, Err(err)),
        (Stage::LogsHand, EventModel::Ready) => logs_handed(model),
        (Stage::LogsEnd, EventModel::Frame(frame)) => logs_closed(model, frame),
        (Stage::LogsEnd, EventModel::Failed(err)) => finished(model, Err(err)),
        (Stage::Flush, EventModel::Ready) => finished(model, Ok(ReplyModel::Complete)),
        (Stage::Flush, EventModel::Failed(err)) => finished(model, Err(err)),
        _ => finished(model, Err(Error::Protocol)),
    }
}

/// What an operation hands back in the end, by its contents.
pub open spec fn outcome_of<TxError>(result: Result<Reply, Error<TxError>>) -> Result<
    ReplyModel,
    Error<TxError>,
> {
    match result {
        Ok(reply) => Ok(reply@),
        Err(err) => Err(err),
    }
}

impl GpsModel {
    /// The session before any operation.
    pub open spec fn fresh(already_disabled_nmea_output: bool) -> GpsModel {
        GpsModel {
            disabled_nmea_output: already_disabled_nmea_output,
            keep_mismatched: true,
            stage: Stage::Idle,
            goal: Goal::Disable,
            frame: Seq::empty(),
            ack_for: Seq::empty(),
            reply_name: Seq::empty(),
            min_fields: 0,
            tries: Retries::fresh(MAX_CMD_TRIES),
            reboots: Retries::fresh(MAX_CMD_TRIES),
            boot: BootWatch::fresh(),
            packet_count: 0,
            next_packet: 0,
            failing: None,
        }
    }
}

} // verus!
