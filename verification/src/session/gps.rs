//! The session as it runs: the state it keeps from one event to the next.

use super::model::{after_disabled, begun, boot_watched, command_answered, command_failed};
use super::model::{commanding, disable_answered, disable_frame, disabling, dumping, finished};
use super::model::{logs_closed, logs_frame, logs_handed, logs_opened, logs_read};
use super::model::{logs_wanted, next};
use super::model::{nmea_output_off, outcome_of, ready_answered, reboot_failed, rebooting};
use super::model::{release_frame, try_failed, GpsModel};
use super::{Action, Event, Goal, Reply, Stage, Step};
use super::{COLD_START_NAME, FULL_COLD_START_NAME, HOT_START_NAME, WARM_START_NAME};
use super::{FIELD_ONE, FIELD_TWO, FIELD_ZERO, LOCUS_DATA_FIELDS, LOCUS_DATA_NAME};
use super::{LOCUS_DATA_QUERY_NAME, LOGGER_STATUS_NAME, NMEA_OUTPUT_FIELDS};
use super::{NUM_LOCUS_CONFIG, NUM_LOCUS_ERASE_FLASH, NUM_LOCUS_QUERY_STATUS};
use super::{NUM_LOCUS_STOP_LOGGER, NUM_SET_NMEA_OUTPUT};
use super::{RELEASE_FIELDS, RELEASE_NAME, RELEASE_QUERY_NAME};
use crate::boot::{BootVerdict, BootWatch};
use crate::cmd::parse::{bytes_equal, contents_of, integer_field};
use crate::cmd::serialize::{encode, serialize, views_of};
use crate::locus::logged_point::Error as PointError;
use crate::locus::logged_point::parse_data_fields;
use crate::transact::{decimal_digits, logger_status_from, u32_to_base10_ascii};
use crate::transact::{frame_for, mtk_name, mtk_name_of, read_ack, read_reply};
use crate::transact::{Retries, Verdict, LOGGER_STATUS_FIELDS};
use crate::Error;
use crate::{DELAY_BEFORE_RETRY_US, MAX_CMD_TRIES, MAX_CMD_TRIES_WITHOUT_NMEA_DISABLED};
use crate::{MAX_POINTS_PER_LOCUS_DATA_PACKET, MAX_READ_SPURIOUS_AFTER_BOOT_READY};
use crate::WAIT_BEFORE_CHECKING_BOOT_READY_US;
use vstd::prelude::*;
use vstd::slice::{slice_subrange, slice_to_vec};

verus! {

/// The session with the receiver.
#[derive(Debug)]
pub struct Gps {
    disabled_nmea_output: bool,
    keep_mismatched: bool,
    stage: Stage,
    goal: Goal,
    frame: Vec<u8>,
    ack_for: Vec<u8>,
    reply_name: Vec<u8>,
    min_fields: usize,
    tries: Retries,
    reboots: Retries,
    boot: BootWatch,
    packet_count: u32,
    next_packet: u32,
    failing: Option<PointError>,
}

impl View for Gps {
    type V = GpsModel;

    closed spec fn view(&self) -> GpsModel {
        GpsModel {
            disabled_nmea_output: self.disabled_nmea_output,
            keep_mismatched: self.keep_mismatched,
            stage: self.stage,
            goal: self.goal,
            frame: self.frame@,
            ack_for: self.ack_for@,
            reply_name: self.reply_name@,
            min_fields: self.min_fields,
            tries: self.tries,
            reboots: self.reboots,
            boot: self.boot,
            packet_count: self.packet_count,
            next_packet: self.next_packet,
            failing: self.failing,
        }
    }
}

/// The frame of the command that disables the periodic output.
pub fn disable_frame_bytes() -> (frame: Vec<u8>)
    ensures
        frame@ == disable_frame(),
{
    let mut fields: Vec<Vec<u8>> = Vec::new();
    let mut i: usize = 0;
    while i < NMEA_OUTPUT_FIELDS
        invariant
            i <= NMEA_OUTPUT_FIELDS,
            fields@.len() == i,
            forall|k: int| 0 <= k < i ==> fields@[k]@ == FIELD_ZERO@,
        decreases NMEA_OUTPUT_FIELDS - i,
    {
        fields.push(slice_to_vec(FIELD_ZERO.as_slice()));
        i += 1;
    }
    assert(contents_of(fields@) == nmea_output_off());
    let name = mtk_name(NUM_SET_NMEA_OUTPUT.as_slice());
    frame_for(name.as_slice(), fields.as_slice())
}

/// The frame of the command that asks for the whole log.
pub fn logs_frame_bytes() -> (frame: Vec<u8>)
    ensures
        frame@ == logs_frame(),
{
    let mut fields: Vec<Vec<u8>> = Vec::new();
    fields.push(slice_to_vec(FIELD_ZERO.as_slice()));
    assert(contents_of(fields@) == seq![FIELD_ZERO@]);
    frame_for(LOCUS_DATA_QUERY_NAME.as_slice(), fields.as_slice())
}

/// The frame of the command that asks for the firmware release.
pub fn release_frame_bytes() -> (frame: Vec<u8>)
    ensures
        frame@ == release_frame(),
{
    let fields: Vec<Vec<u8>> = Vec::new();
    frame_for(RELEASE_QUERY_NAME.as_slice(), fields.as_slice())
}

impl Gps {
    /// A session in which no operation is under way.
    /// `already_disabled_nmea_output` says whether the receiver has been told
    /// before not to send sentences on its own.
    pub fn new(already_disabled_nmea_output: bool) -> (gps: Self)
        ensures
            gps@ == GpsModel::fresh(already_disabled_nmea_output),
    {
        Self {
            disabled_nmea_output: already_disabled_nmea_output,
            keep_mismatched: true,
            stage: Stage::Idle,
            goal: Goal::Disable,
            frame: Vec::new(),
            ack_for: Vec::new(),
            reply_name: Vec::new(),
            min_fields: 0,
            tries: Retries::new(MAX_CMD_TRIES),
            reboots: Retries::new(MAX_CMD_TRIES),
            boot: BootWatch::new(),
            packet_count: 0,
            next_packet: 0,
            failing: None,
        }
    }

    /// Whether no operation is under way.
    pub fn is_idle(&self) -> (idle: bool)
        ensures
            idle == (self@.stage == Stage::Idle),
    {
        self.stage == Stage::Idle
    }

    /// Whether the receiver has been told not to send sentences on its own.
    pub fn has_disabled_nmea_output(&self) -> (disabled: bool)
        ensures
            disabled == self@.disabled_nmea_output,
    {
        self.disabled_nmea_output
    }

    /// Sets whether points of the log with a wrong checksum are handed on.
    /// They are unless this is set otherwise.
    pub fn set_keep_mismatched(&mut self, keep_mismatched: bool)
        ensures
            final(self)@ == (GpsModel { keep_mismatched, ..old(self)@ }),
    {
        self.keep_mismatched = keep_mismatched;
    }

    fn finish<TxError>(&mut self, result: Result<Reply, Error<TxError>>) -> (action: Action<
        TxError,
    >)
        ensures
            (final(self)@, action@) == finished(old(self)@, outcome_of(result)),
    {
        self.stage = Stage::Idle;
        Action::Done(result)
    }

    fn disable<TxError>(&mut self) -> (action: Action<TxError>)
        ensures
            (final(self)@, action@) == disabling::<TxError>(old(self)@),
    {
        let mut tries = Retries::new(MAX_CMD_TRIES_WITHOUT_NMEA_DISABLED);
        tries.begin();
        self.tries = tries;
        self.stage = Stage::DisableSend;
        Action::Send(disable_frame_bytes())
    }

    fn command<TxError>(&mut self) -> (action: Action<TxError>)
        ensures
            (final(self)@, action@) == commanding::<TxError>(old(self)@),
    {
        let mut tries = Retries::new(MAX_CMD_TRIES);
        tries.begin();
        self.tries = tries;
        self.stage = Stage::CommandSend;
        Action::Send(slice_to_vec(self.frame.as_slice()))
    }

    fn dump<TxError>(&mut self) -> (action: Action<TxError>)
        ensures
            (final(self)@, action@) == dumping::<TxError>(old(self)@),
    {
        self.stage = Stage::LogsSend;
        Action::Send(logs_frame_bytes())
    }

    fn reboot<TxError>(&mut self) -> (action: Action<TxError>)
        ensures
            (final(self)@, action@) == rebooting::<TxError>(old(self)@),
    {
        self.reboots.begin();
        self.disabled_nmea_output = false;
        self.stage = Stage::RebootSend;
        Action::Send(slice_to_vec(self.frame.as_slice()))
    }

    fn go_on<TxError>(&mut self) -> (action: Action<TxError>)
        ensures
            (final(self)@, action@) == after_disabled::<TxError>(old(self)@),
    {
        match self.goal {
            Goal::Disable => self.finish(Ok(Reply::Complete)),
            Goal::Reboot => self.finish(Ok(Reply::Complete)),
            Goal::Logs => self.dump(),
            _ => self.command(),
        }
    }

    fn begin<TxError>(&mut self) -> (action: Action<TxError>)
        ensures
            (final(self)@, action@) == begun::<TxError>(old(self)@),
    {
        if self.goal == Goal::Reboot {
            self.reboots = Retries::new(MAX_CMD_TRIES);
            self.reboot()
        } else if self.disabled_nmea_output {
            self.go_on()
        } else {
            self.disable()
        }
    }

    fn fail_reboot<TxError>(&mut self, err: Error<TxError>) -> (action: Action<TxError>)
        ensures
            (final(self)@, action@) == reboot_failed(old(self)@, err),
    {
        match self.reboots.judge(&err) {
            Verdict::Again => {
                self.stage = Stage::RebootPause;
                Action::Delay(DELAY_BEFORE_RETRY_US)
            },
            Verdict::GiveUp => self.finish(Err(err)),
        }
    }

    fn fail_command<TxError>(&mut self, err: Error<TxError>) -> (action: Action<TxError>)
        ensures
            (final(self)@, action@) == command_failed(old(self)@, err),
    {
        if self.goal == Goal::Reboot {
            self.fail_reboot(err)
        } else {
            self.finish(Err(err))
        }
    }

    fn fail_try<TxError>(&mut self, err: Error<TxError>, pause: Stage) -> (action: Action<
        TxError,
    >)
        ensures
            (final(self)@, action@) == try_failed(old(self)@, err, pause),
    {
        match self.tries.judge(&err) {
            Verdict::Again => {
                self.stage = pause;
                Action::Delay(DELAY_BEFORE_RETRY_US)
            },
            Verdict::GiveUp => self.fail_command(err),
        }
    }

    fn on_disable_answer<TxError>(&mut self, frame: &[u8]) -> (action: Action<TxError>)
        ensures
            (final(self)@, action@) == disable_answered::<TxError>(old(self)@, frame@),
    {
        match read_ack::<TxError>(frame, NUM_SET_NMEA_OUTPUT.as_slice()) {
            Ok(()) => {
                self.disabled_nmea_output = true;
                self.go_on()
            },
            Err(err) => self.fail_try(err, Stage::DisablePause),
        }
    }

    fn on_command_answer<TxError>(&mut self, frame: &[u8]) -> (action: Action<TxError>)
        ensures
            (final(self)@, action@) == command_answered::<TxError>(old(self)@, frame@),
    {
        match self.goal {
            Goal::Status => match read_reply::<TxError>(
                frame,
                LOGGER_STATUS_NAME.as_slice(),
                LOGGER_STATUS_FIELDS,
            ) {
                Err(err) => self.fail_try(err, Stage::CommandPause),
                Ok(fields) => match logger_status_from(fields.as_slice()) {
                    Ok(status) => self.finish(Ok(Reply::Status(status))),
                    Err(err) => self.finish(Err(Error::Parse(err))),
                },
            },
            Goal::Reply => match read_reply::<TxError>(
                frame,
                self.reply_name.as_slice(),
                self.min_fields,
            ) {
                Err(err) => self.fail_try(err, Stage::CommandPause),
                Ok(fields) => self.finish(Ok(Reply::Fields(fields))),
            },
            _ => match read_ack::<TxError>(frame, self.ack_for.as_slice()) {
                Err(err) => self.fail_try(err, Stage::CommandPause),
                Ok(()) => self.finish(Ok(Reply::Complete)),
            },
        }
    }

    fn on_boot_watch<TxError>(&mut self) -> (action: Action<TxError>)
        ensures
            (final(self)@, action@) == boot_watched::<TxError>(old(self)@),
    {
        match self.boot.check() {
            BootVerdict::Booted => {
                self.stage = Stage::BootSettle;
                Action::Delay(WAIT_BEFORE_CHECKING_BOOT_READY_US)
            },
            BootVerdict::Failed => self.fail_reboot(Error::BootFailed),
            BootVerdict::Waiting => {
                self.stage = Stage::BootReceive;
                Action::Receive
            },
        }
    }

    fn on_ready_answer<TxError>(&mut self, frame: &[u8]) -> (action: Action<TxError>)
        ensures
            (final(self)@, action@) == ready_answered::<TxError>(old(self)@, frame@),
    {
        match read_reply::<TxError>(frame, RELEASE_NAME.as_slice(), RELEASE_FIELDS) {
            Err(err) => self.fail_try(err, Stage::ReadyPause),
            Ok(_) => if self.disabled_nmea_output {
                self.go_on()
            } else {
                self.disable()
            },
        }
    }

    fn want_logs<TxError>(&mut self) -> (action: Action<TxError>)
        ensures
            (final(self)@, action@) == logs_wanted::<TxError>(old(self)@),
    {
        if self.next_packet < self.packet_count {
            self.stage = Stage::LogsData;
        } else {
            self.stage = Stage::LogsEnd;
        }
        Action::Receive
    }

    fn on_logs_open<TxError>(&mut self, frame: &[u8]) -> (action: Action<TxError>)
        ensures
            (final(self)@, action@) == logs_opened::<TxError>(old(self)@, frame@),
    {
        let fields = match read_reply::<TxError>(
            frame,
            LOCUS_DATA_NAME.as_slice(),
            LOCUS_DATA_FIELDS,
        ) {
            Ok(fields) => fields,
            Err(err) => {
                return self.finish(Err(err));
            },
        };
        if !bytes_equal(fields[0].as_slice(), FIELD_ZERO.as_slice()) {
            return self.finish(Err(Error::Protocol));
        }
        match integer_field(fields[1].as_slice()) {
            Err(err) => self.finish(Err(Error::Parse(err))),
            Ok(count) => {
                self.packet_count = count;
                self.next_packet = 0;
                self.want_logs()
            },
        }
    }

    fn on_logs_data<TxError>(&mut self, frame: &[u8]) -> (action: Action<TxError>)
        ensures
            (final(self)@, action@) == logs_read::<TxError>(old(self)@, frame@),
    {
        let fields = match read_reply::<TxError>(
            frame,
            LOCUS_DATA_NAME.as_slice(),
            LOCUS_DATA_FIELDS,
        ) {
            Ok(fields) => fields,
            Err(err) => {
                return self.finish(Err(err));
            },
        };
        if !bytes_equal(fields[0].as_slice(), FIELD_ONE.as_slice()) {
            return self.finish(Err(Error::Protocol));
        }
        let number = match integer_field(fields[1].as_slice()) {
            Ok(number) => number,
            Err(err) => {
                return self.finish(Err(Error::Parse(err)));
            },
        };
        if number != self.next_packet {
            return self.finish(Err(Error::Protocol));
        }
        let chunks = slice_subrange(fields.as_slice(), 2, fields.len());
        assert(contents_of(chunks@) == contents_of(fields@).skip(2));
        let data = parse_data_fields(chunks, self.keep_mismatched);
        let estimate: u64 = self.packet_count as u64 * MAX_POINTS_PER_LOCUS_DATA_PACKET as u64;
        self.next_packet = self.next_packet.saturating_add(1);
        self.failing = data.failure;
        self.stage = Stage::LogsHand;
        Action::Points { estimate, points: data.points, mismatches: data.mismatches }
    }

    fn on_logs_handed<TxError>(&mut self) -> (action: Action<TxError>)
        ensures
            (final(self)@, action@) == logs_handed::<TxError>(old(self)@),
    {
        match self.failing {
            Some(err) => self.finish(Err(Error::ParseLoggedPoint(err))),
            None => self.want_logs(),
        }
    }

    fn on_logs_close<TxError>(&mut self, frame: &[u8]) -> (action: Action<TxError>)
        ensures
            (final(self)@, action@) == logs_closed::<TxError>(old(self)@, frame@),
    {
        let fields = match read_reply::<TxError>(
            frame,
            LOCUS_DATA_NAME.as_slice(),
            LOCUS_DATA_FIELDS,
        ) {
            Ok(fields) => fields,
            Err(err) => {
                return self.finish(Err(err));
            },
        };
        if !bytes_equal(fields[0].as_slice(), FIELD_TWO.as_slice()) {
            return self.finish(Err(Error::Protocol));
        }
        self.finish(Ok(Reply::Complete))
    }

    /// Begins to send the command with the number `num` and with `fields`,
    /// and to await its acknowledgement. The periodic output is disabled first
    /// unless it is already; the command itself is tried again after a pause
    /// while trying may help.
    pub fn send_mtk_cmd<TxError>(&mut self, num: &[u8; 3], fields: &[&[u8]]) -> (action: Action<
        TxError,
    >)
        ensures
            (final(self)@, action@) == begun::<TxError>(
                GpsModel {
                    goal: Goal::Ack,
                    frame: encode(mtk_name_of(num@), views_of(fields@)),
                    ack_for: num@,
                    ..old(self)@
                },
            ),
    {
        let name = mtk_name(num.as_slice());
        let mut frame: Vec<u8> = Vec::new();
        serialize(name.as_slice(), fields, &mut frame);
        self.goal = Goal::Ack;
        self.frame = frame;
        self.ack_for = slice_to_vec(num.as_slice());
        self.begin()
    }

    /// Begins to send the command with the number `num` and with `fields`,
    /// and to await the reply with the number `reply_num` and at least
    /// `reply_min_fields` fields, which is handed back in the end.
    pub fn send_mtk_cmd_for_reply<TxError>(
        &mut self,
        num: &[u8; 3],
        fields: &[&[u8]],
        reply_num: &[u8; 3],
        reply_min_fields: usize,
    ) -> (action: Action<TxError>)
        ensures
            (final(self)@, action@) == begun::<TxError>(
                GpsModel {
                    goal: Goal::Reply,
                    frame: encode(mtk_name_of(num@), views_of(fields@)),
                    reply_name: mtk_name_of(reply_num@),
                    min_fields: reply_min_fields,
                    ..old(self)@
                },
            ),
    {
        let name = mtk_name(num.as_slice());
        let mut frame: Vec<u8> = Vec::new();
        serialize(name.as_slice(), fields, &mut frame);
        self.goal = Goal::Reply;
        self.frame = frame;
        self.reply_name = mtk_name(reply_num.as_slice());
        self.min_fields = reply_min_fields;
        self.begin()
    }

    fn send_with_field<TxError>(&mut self, num: &[u8; 3], field: &[u8]) -> (action: Action<
        TxError,
    >)
        ensures
            (final(self)@, action@) == begun::<TxError>(
                GpsModel {
                    goal: Goal::Ack,
                    frame: encode(mtk_name_of(num@), seq![field@]),
                    ack_for: num@,
                    ..old(self)@
                },
            ),
    {
        let fields: [&[u8]; 1] = [field];
        assert(views_of(fields@) == seq![field@]);
        self.send_mtk_cmd(num, fields.as_slice())
    }

    /// Begins to set the interval at which the logger records a position, in
    /// seconds.
    pub fn configure_logger_interval<TxError>(&mut self, secs: u32) -> (action: Action<TxError>)
        ensures
            (final(self)@, action@) == begun::<TxError>(
                GpsModel {
                    goal: Goal::Ack,
                    frame: encode(
                        mtk_name_of(NUM_LOCUS_CONFIG@),
                        seq![FIELD_ONE@, decimal_digits(secs as nat)],
                    ),
                    ack_for: NUM_LOCUS_CONFIG@,
                    ..old(self)@
                },
            ),
    {
        let secs_ascii = u32_to_base10_ascii(secs);
        let fields: [&[u8]; 2] = [FIELD_ONE.as_slice(), secs_ascii.as_slice()];
        assert(views_of(fields@) == seq![FIELD_ONE@, decimal_digits(secs as nat)]);
        self.send_mtk_cmd(&NUM_LOCUS_CONFIG, fields.as_slice())
    }

    /// Begins to erase the log.
    pub fn erase_logs<TxError>(&mut self) -> (action: Action<TxError>)
        ensures
            (final(self)@, action@) == begun::<TxError>(
                GpsModel {
                    goal: Goal::Ack,
                    frame: encode(mtk_name_of(NUM_LOCUS_ERASE_FLASH@), seq![FIELD_ONE@]),
                    ack_for: NUM_LOCUS_ERASE_FLASH@,
                    ..old(self)@
                },
            ),
    {
        self.send_with_field(&NUM_LOCUS_ERASE_FLASH, FIELD_ONE.as_slice())
    }

    /// Begins to start the logger.
    pub fn start_logging<TxError>(&mut self) -> (action: Action<TxError>)
        ensures
            (final(self)@, action@) == begun::<TxError>(
                GpsModel {
                    goal: Goal::Ack,
                    frame: encode(mtk_name_of(NUM_LOCUS_STOP_LOGGER@), seq![FIELD_ZERO@]),
                    ack_for: NUM_LOCUS_STOP_LOGGER@,
                    ..old(self)@
                },
            ),
    {
        // 0 = start
        self.send_with_field(&NUM_LOCUS_STOP_LOGGER, FIELD_ZERO.as_slice())
    }

    /// Begins to stop the logger.
    pub fn stop_logging<TxError>(&mut self) -> (action: Action<TxError>)
        ensures
            (final(self)@, action@) == begun::<TxError>(
                GpsModel {
                    goal: Goal::Ack,
                    frame: encode(mtk_name_of(NUM_LOCUS_STOP_LOGGER@), seq![FIELD_ONE@]),
                    ack_for: NUM_LOCUS_STOP_LOGGER@,
                    ..old(self)@
                },
            ),
    {
        // 1 = stop
        self.send_with_field(&NUM_LOCUS_STOP_LOGGER, FIELD_ONE.as_slice())
    }

    /// Begins to ask for the logger's status, which is handed back in the
    /// end.
    pub fn logger_status<TxError>(&mut self) -> (action: Action<TxError>)
        ensures
            (final(self)@, action@) == begun::<TxError>(
                GpsModel {
                    goal: Goal::Status,
                    frame: encode(mtk_name_of(NUM_LOCUS_QUERY_STATUS@), Seq::empty()),
                    ..old(self)@
                },
            ),
    {
        let name = mtk_name(NUM_LOCUS_QUERY_STATUS.as_slice());
        let fields: Vec<Vec<u8>> = Vec::new();
        self.goal = Goal::Status;
        self.frame = frame_for(name.as_slice(), fields.as_slice());
        self.begin()
    }

    /// Begins to read the whole log. Its points are handed over frame by
    /// frame, by [`Action::Points`]. Nothing is tried again: a dump is
    /// expensive.
    pub fn read_logs<TxError>(&mut self) -> (action: Action<TxError>)
        ensures
            (final(self)@, action@) == begun::<TxError>(
                GpsModel { goal: Goal::Logs, ..old(self)@ },
            ),
    {
        self.goal = Goal::Logs;
        self.begin()
    }

    /// Begins to restart the receiver with the command called `cmd`: the
    /// command is sent, the boot is awaited, the receiver is asked whether it
    /// is ready, and the periodic output is disabled again. The whole
    /// sequence is tried again after a pause while trying may help.
    pub fn send_reboot_cmd<TxError>(&mut self, cmd: &[u8]) -> (action: Action<TxError>)
        ensures
            (final(self)@, action@) == begun::<TxError>(
                GpsModel {
                    goal: Goal::Reboot,
                    frame: encode(cmd@, Seq::empty()),
                    ..old(self)@
                },
            ),
    {
        let fields: Vec<Vec<u8>> = Vec::new();
        self.goal = Goal::Reboot;
        self.frame = frame_for(cmd, fields.as_slice());
        self.begin()
    }

    /// Restart keeping all saved data.
    pub fn hot_restart<TxError>(&mut self) -> (action: Action<TxError>)
        ensures
            (final(self)@, action@) == begun::<TxError>(
                GpsModel {
                    goal: Goal::Reboot,
                    frame: encode(HOT_START_NAME@, Seq::empty()),
                    ..old(self)@
                },
            ),
    {
        self.send_reboot_cmd(HOT_START_NAME.as_slice())
    }

    /// Restart keeping everything but ephemeris.
    pub fn warm_restart<TxError>(&mut self) -> (action: Action<TxError>)
        ensures
            (final(self)@, action@) == begun::<TxError>(
                GpsModel {
                    goal: Goal::Reboot,
                    frame: encode(WARM_START_NAME@, Seq::empty()),
                    ..old(self)@
                },
            ),
    {
        self.send_reboot_cmd(WARM_START_NAME.as_slice())
    }

    /// Restart keeping everything but time, position, almanacs and ephemeris.
    pub fn cold_restart<TxError>(&mut self) -> (action: Action<TxError>)
        ensures
            (final(self)@, action@) == begun::<TxError>(
                GpsModel {
                    goal: Goal::Reboot,
                    frame: encode(COLD_START_NAME@, Seq::empty()),
                    ..old(self)@
                },
            ),
    {
        self.send_reboot_cmd(COLD_START_NAME.as_slice())
    }

    /// Restart, clearing everything.
    ///
    /// It's essentially a cold restart, but additionally clear system/user
    /// configurations at re-start.
    pub fn factory_reset<TxError>(&mut self) -> (action: Action<TxError>)
        ensures
            (final(self)@, action@) == begun::<TxError>(
                GpsModel {
                    goal: Goal::Reboot,
                    frame: encode(FULL_COLD_START_NAME@, Seq::empty()),
                    ..old(self)@
                },
            ),
    {
        self.send_reboot_cmd(FULL_COLD_START_NAME.as_slice())
    }

    /// Begins to have the periodic output disabled, which takes nothing if it
    /// is already.
    pub fn ensure_nmea_output_disabled<TxError>(&mut self) -> (action: Action<TxError>)
        ensures
            (final(self)@, action@) == begun::<TxError>(
                GpsModel { goal: Goal::Disable, ..old(self)@ },
            ),
    {
        self.goal = Goal::Disable;
        self.begin()
    }

    /// Begins to discard what the inbound ring holds.
    pub fn flush_rx_queue<TxError>(&mut self) -> (action: Action<TxError>)
        ensures
            (final(self)@, action@) == (
                GpsModel { stage: Stage::Flush, ..old(self)@ },
                Step::<TxError>::Flush,
            ),
    {
        self.stage = Stage::Flush;
        Action::Flush
    }

    /// Takes the news of how the action that was handed out last went, and
    /// hands out the next.
    pub fn step<TxError>(&mut self, event: Event<TxError>) -> (action: Action<TxError>)
        ensures
            (final(self)@, action@) == next(old(self)@, event@),
    {
        match self.stage {
            Stage::Idle => self.finish(Err(Error::Protocol)),
            Stage::DisableSend => match event {
                Event::Ready => {
                    self.stage = Stage::DisableReceive;
                    Action::Receive
                },
                Event::Failed(err) => self.fail_try(err, Stage::DisablePause),
                Event::Frame(_) => self.finish(Err(Error::Protocol)),
            },
            Stage::DisableReceive => match event {
                Event::Frame(frame) => self.on_disable_answer(frame.as_slice()),
                Event::Failed(err) => self.fail_try(err, Stage::DisablePause),
                Event::Ready => self.finish(Err(Error::Protocol)),
            },
            Stage::DisablePause => match event {
                Event::Ready => {
                    self.tries.begin();
                    self.stage = Stage::DisableSend;
                    Action::Send(disable_frame_bytes())
                },
                _ => self.finish(Err(Error::Protocol)),
            },
            Stage::CommandSend => match event {
                Event::Ready => {
                    self.stage = Stage::CommandReceive;
                    Action::Receive
                },
                Event::Failed(err) => self.fail_try(err, Stage::CommandPause),
                Event::Frame(_) => self.finish(Err(Error::Protocol)),
            },
            Stage::CommandReceive => match event {
                Event::Frame(frame) => self.on_command_answer(frame.as_slice()),
                Event::Failed(err) => self.fail_try(err, Stage::CommandPause),
                Event::Ready => self.finish(Err(Error::Protocol)),
            },
            Stage::CommandPause => match event {
                Event::Ready => {
                    self.tries.begin();
                    self.stage = Stage::CommandSend;
                    Action::Send(slice_to_vec(self.frame.as_slice()))
                },
                _ => self.finish(Err(Error::Protocol)),
            },
            Stage::RebootSend => match event {
                Event::Ready => {
                    self.boot = BootWatch::new();
                    self.on_boot_watch()
                },
                Event::Failed(err) => self.fail_reboot(err),
                Event::Frame(_) => self.finish(Err(Error::Protocol)),
            },
            Stage::BootReceive => match event {
                Event::Frame(frame) => {
                    self.boot.observe(frame.as_slice());
                    self.on_boot_watch()
                },
                Event::Failed(_) => {
                    self.boot.miss();
                    self.on_boot_watch()
                },
                Event::Ready => self.finish(Err(Error::Protocol)),
            },
            Stage::BootSettle => match event {
                Event::Ready => {
                    self.stage = Stage::BootFlush;
                    Action::Flush
                },
                _ => self.finish(Err(Error::Protocol)),
            },
            Stage::BootFlush => match event {
                Event::Ready => {
                    let mut tries = Retries::new(MAX_READ_SPURIOUS_AFTER_BOOT_READY);
                    tries.begin();
                    self.tries = tries;
                    self.stage = Stage::ReadySend;
                    Action::Send(release_frame_bytes())
                },
                _ => self.finish(Err(Error::Protocol)),
            },
            Stage::ReadySend => match event {
                Event::Ready => {
                    self.stage = Stage::ReadyReceive;
                    Action::Receive
                },
                Event::Failed(err) => self.fail_try(err, Stage::ReadyPause),
                Event::Frame(_) => self.finish(Err(Error::Protocol)),
            },
            Stage::ReadyReceive => match event {
                Event::Frame(frame) => self.on_ready_answer(frame.as_slice()),
                Event::Failed(err) => self.fail_try(err, Stage::ReadyPause),
                Event::Ready => self.finish(Err(Error::Protocol)),
            },
            Stage::ReadyPause => match event {
                Event::Ready => {
                    self.tries.begin();
                    self.stage = Stage::ReadySend;
                    Action::Send(release_frame_bytes())
                },
                _ => self.finish(Err(Error::Protocol)),
            },
            Stage::RebootPause => match event {
                Event::Ready => self.reboot(),
                _ => self.finish(Err(Error::Protocol)),
            },
            Stage::LogsSend => match event {
                Event::Ready => {
                    self.stage = Stage::LogsStart;
                    Action::Receive
                },
                Event::Failed(err) => self.finish(Err(err)),
                Event::Frame(_) => self.finish(Err(Error::Protocol)),
            },
            Stage::LogsStart => match event {
                Event::Frame(frame) => self.on_logs_open(frame.as_slice()),
                Event::Failed(err) => self.finish(Err(err)),
                Event::Ready => self.finish(Err(Error::Protocol)),
            },
            Stage::LogsData => match event {
                Event::Frame(frame) => self.on_logs_data(frame.as_slice()),
                Event::Failed(err) => self.finish(Err(err)),
                Event::Ready => self.finish(Err(Error::Protocol)),
            },
            Stage::LogsHand => match event {
                Event::Ready => self.on_logs_handed(),
                _ => self.finish(Err(Error::Protocol)),
            },
            Stage::LogsEnd => match event {
                Event::Frame(frame) => self.on_logs_close(frame.as_slice()),
                Event::Failed(err) => self.finish(Err(err)),
                Event::Ready => self.finish(Err(Error::Protocol)),
            },
            Stage::Flush => match event {
                Event::Ready => self.finish(Ok(Reply::Complete)),
                Event::Failed(err) => self.finish(Err(err)),
                Event::Frame(_) => self.finish(Err(Error::Protocol)),
            },
        }
    }
}

} // verus!
