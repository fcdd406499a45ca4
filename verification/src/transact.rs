//! One command and its answer: how a command is put into a frame, what a
//! frame that came back says, and when a command is tried again.

use crate::cmd::parse::{bool_field, bytes_equal, integer_field, integer_percent_field, parse};
use crate::cmd::parse::{contents_of, decimal_u32, decimal_u8, decode, percent_of};
use crate::cmd::serialize::{encode, serialize, views_of};
use crate::integer_percent::IntegerPercent;
use crate::locus::status::LoggerStatus;
use crate::{Error, ParseError};
use lexical_core::FormattedSize;
use vstd::prelude::*;
use vstd::slice::slice_to_vec;

verus! {

/// `PMTK`, with which the name of every command and reply starts.
pub const MTK_PREFIX: [u8; 4] = [0x50, 0x4d, 0x54, 0x4b];

/// `PMTK001`, the name of an acknowledgement.
pub const ACK_NAME: [u8; 7] = [0x50, 0x4d, 0x54, 0x4b, 0x30, 0x30, 0x31];

/// How many fields an acknowledgement has: the number of the command it
/// answers, and a status.
pub const ACK_FIELDS: usize = 2;

/// `0`, the status of a command that the receiver does not know.
pub const ACK_INVALID: u8 = 0x30;

/// `1`, the status of a command that the receiver does not support.
pub const ACK_UNSUPPORTED: u8 = 0x31;

/// `2`, the status of a command that the receiver could not carry out.
pub const ACK_FAILED: u8 = 0x32;

/// `3`, the status of a command that the receiver carried out.
pub const ACK_SUCCEEDED: u8 = 0x33;

/// How many fields the reply to a query of the logger's status has at least.
pub const LOGGER_STATUS_FIELDS: usize = 10;

/// The name of the command or reply with the number `num`.
pub open spec fn mtk_name_of(num: Seq<u8>) -> Seq<u8> {
    MTK_PREFIX@ + num
}

/// The name of the command or reply with the number `num`.
pub fn mtk_name(num: &[u8]) -> (name: Vec<u8>)
    ensures
        name@ == mtk_name_of(num@),
{
    let mut name = slice_to_vec(MTK_PREFIX.as_slice());
    let mut i: usize = 0;
    while i < num.len()
        invariant
            i <= num@.len(),
            name@ == MTK_PREFIX@ + num@.take(i as int),
        decreases num@.len() - i,
    {
        name.push(num[i]);
        i += 1;
    }
    name
}

/// The frame that carries the command `name` with `fields`.
pub fn frame_for(name: &[u8], fields: &[Vec<u8>]) -> (frame: Vec<u8>)
    ensures
        frame@ == encode(name@, contents_of(fields@)),
{
    let mut borrowed: Vec<&[u8]> = Vec::new();
    let mut i: usize = 0;
    while i < fields.len()
        invariant
            i <= fields@.len(),
            borrowed@.len() == i,
            forall|k: int| 0 <= k < i ==> borrowed@[k]@ == fields@[k]@,
        decreases fields@.len() - i,
    {
        borrowed.push(fields[i].as_slice());
        i += 1;
    }
    assert(views_of(borrowed@) == contents_of(fields@));
    let mut frame: Vec<u8> = Vec::new();
    serialize(name, borrowed.as_slice(), &mut frame);
    frame
}

/// `val` in decimal digits, without sign or padding.
pub open spec fn decimal_digits(val: nat) -> Seq<u8>
    decreases val,
{
    if val < 10 {
        seq![(0x30 + val) as u8]
    } else {
        decimal_digits(val / 10).push((0x30 + val % 10) as u8)
    }
}

/// Calls `lexical_core::write` for `u32`, which writes the number in decimal
/// digits without sign or padding.
#[verifier::external_body]
fn write_decimal_u32(val: u32) -> (digits: Vec<u8>)
    ensures
        digits@ == decimal_digits(val as nat),
{
    let mut buf = [0_u8; u32::FORMATTED_SIZE_DECIMAL];
    lexical_core::write(val, &mut buf).to_vec()
}

/// `val` as the decimal text a field carries.
pub fn u32_to_base10_ascii(val: u32) -> (digits: Vec<u8>)
    ensures
        digits@ == decimal_digits(val as nat),
{
    write_decimal_u32(val)
}

/// What a frame that came back says, where a reply called `name` with at
/// least `min_fields` fields is awaited: its fields, or why it is not that
/// reply. Another name is common while the receiver still sends unrequested
/// sentences.
pub open spec fn reply_of<TxError>(frame: Seq<u8>, name: Seq<u8>, min_fields: nat) -> Result<
    Seq<Seq<u8>>,
    Error<TxError>,
> {
    match decode(frame) {
        Err(err) => Err(Error::Parse(err)),
        Ok((actual_name, fields)) => if actual_name != name || fields.len() < min_fields {
            Err(Error::Protocol)
        } else {
            Ok(fields)
        },
    }
}

/// Reads a frame that came back as the reply called `name` with at least
/// `min_fields` fields.
pub fn read_reply<TxError>(frame: &[u8], name: &[u8], min_fields: usize) -> (reply: Result<
    Vec<Vec<u8>>,
    Error<TxError>,
>)
    ensures
        match reply {
            Ok(fields) => reply_of::<TxError>(frame@, name@, min_fields as nat) == Ok::<
                Seq<Seq<u8>>,
                Error<TxError>,
            >(contents_of(fields@)),
            Err(err) => reply_of::<TxError>(frame@, name@, min_fields as nat) == Err::<
                Seq<Seq<u8>>,
                Error<TxError>,
            >(err),
        },
{
    let (actual_name, fields) = match parse(frame) {
        Ok(parsed) => parsed,
        Err(err) => {
            return Err(Error::Parse(err));
        },
    };
    if !bytes_equal(name, actual_name.as_slice()) {
        return Err(Error::Protocol);
    }
    if fields.len() < min_fields {
        return Err(Error::Protocol);
    }
    Ok(fields)
}

/// What a status byte of an acknowledgement says.
pub open spec fn ack_status_of<TxError>(status: u8) -> Result<(), Error<TxError>> {
    if status == ACK_INVALID {
        Err(Error::GpsSaysInvalidCommand)
    } else if status == ACK_UNSUPPORTED {
        Err(Error::GpsSaysUnsupportedCommand)
    } else if status == ACK_FAILED {
        Err(Error::GpsSaysActionFailed)
    } else if status == ACK_SUCCEEDED {
        Ok(())
    } else {
        Err(Error::Protocol)
    }
}

/// What a frame that came back says, where the acknowledgement of the
/// command with the number `for_num` is awaited. An acknowledgement has
/// exactly two fields: the number of the command, and a status of one byte.
pub open spec fn ack_of<TxError>(frame: Seq<u8>, for_num: Seq<u8>) -> Result<(), Error<TxError>> {
    match reply_of::<TxError>(frame, ACK_NAME@, ACK_FIELDS as nat) {
        Err(err) => Err(err),
        Ok(fields) => if fields.len() != ACK_FIELDS || fields[1].len() != 1 || fields[0]
            != for_num {
            Err(Error::Protocol)
        } else {
            ack_status_of(fields[1][0])
        },
    }
}

/// Reads a frame that came back as the acknowledgement of the command with
/// the number `for_num`.
pub fn read_ack<TxError>(frame: &[u8], for_num: &[u8]) -> (ack: Result<(), Error<TxError>>)
    ensures
        ack == ack_of::<TxError>(frame@, for_num@),
{
    let fields = match read_reply::<TxError>(frame, ACK_NAME.as_slice(), ACK_FIELDS) {
        Ok(fields) => fields,
        Err(err) => {
            return Err(err);
        },
    };
    if fields.len() != ACK_FIELDS {
        return Err(Error::Protocol);
    }
    let got_for = &fields[0];
    let got_status = &fields[1];
    if got_status.len() != 1 {
        return Err(Error::Protocol);
    }
    let got_status = got_status[0];

    if !bytes_equal(for_num, got_for.as_slice()) {
        return Err(Error::Protocol);
    }
    if got_status == ACK_INVALID {
        Err(Error::GpsSaysInvalidCommand)
    } else if got_status == ACK_UNSUPPORTED {
        Err(Error::GpsSaysUnsupportedCommand)
    } else if got_status == ACK_FAILED {
        Err(Error::GpsSaysActionFailed)
    } else if got_status == ACK_SUCCEEDED {
        Ok(())
    } else {
        Err(Error::Protocol)
    }
}

/// The status that four fields of a reply make, if all of them could be
/// read.
pub open spec fn status_of_parts(
    interval: Result<u32, ParseError>,
    is_on: Result<bool, ParseError>,
    record_count: Result<u32, ParseError>,
    percent_full: Result<IntegerPercent, ParseError>,
) -> Result<LoggerStatus, ParseError> {
    match (interval, is_on, record_count, percent_full) {
        (Ok(interval), Ok(is_on), Ok(record_count), Ok(percent_full)) => Ok(
            LoggerStatus { interval, is_on, record_count, percent_full },
        ),
        _ => Err(ParseError::ParseField),
    }
}

/// Puts the status together from what four fields of a reply read as.
pub fn logger_status_from_parts(
    interval: Result<u32, ParseError>,
    is_on: Result<bool, ParseError>,
    record_count: Result<u32, ParseError>,
    percent_full: Result<IntegerPercent, ParseError>,
) -> (status: Result<LoggerStatus, ParseError>)
    ensures
        status == status_of_parts(interval, is_on, record_count, percent_full),
{
    match (interval, is_on, record_count, percent_full) {
        (Ok(interval), Ok(is_on), Ok(record_count), Ok(percent_full)) => Ok(
            LoggerStatus { interval, is_on, record_count, percent_full },
        ),
        _ => Err(ParseError::ParseField),
    }
}

/// What a field that holds a decimal number reads as.
pub open spec fn number_of(field: Seq<u8>) -> Result<u32, ParseError> {
    match decimal_u32(field) {
        Some(number) => Ok(number),
        None => Err(ParseError::ParseField),
    }
}

/// What the status field of the logger reads as: `0` means that the logger
/// is on, `1` that it is off.
pub open spec fn logging_of(field: Seq<u8>) -> Result<bool, ParseError> {
    if field == seq![0x30u8] {
        Ok(true)
    } else if field == seq![0x31u8] {
        Ok(false)
    } else {
        Err(ParseError::ParseField)
    }
}

/// The status that the fields of the logger's reply hold: the interval is
/// field 4, the status field 7, the number of records field 8, and how full
/// the log is field 9.
pub open spec fn status_of(fields: Seq<Seq<u8>>) -> Result<LoggerStatus, ParseError> {
    status_of_parts(
        number_of(fields[4]),
        logging_of(fields[7]),
        number_of(fields[8]),
        percent_of(decimal_u8(fields[9])),
    )
}

/// Reads the fields of the logger's reply.
pub fn logger_status_from(fields: &[Vec<u8>]) -> (status: Result<LoggerStatus, ParseError>)
    requires
        fields@.len() >= LOGGER_STATUS_FIELDS,
    ensures
        status == status_of(contents_of(fields@)),
{
    let on: [u8; 1] = [0x30];
    let off: [u8; 1] = [0x31];
    assert(on@ == seq![0x30u8]);
    assert(off@ == seq![0x31u8]);
    let interval = integer_field(fields[4].as_slice());
    let is_on = bool_field(fields[7].as_slice(), on.as_slice(), off.as_slice());
    let record_count = integer_field(fields[8].as_slice());
    let percent_full = integer_percent_field(fields[9].as_slice());
    logger_status_from_parts(interval, is_on, record_count, percent_full)
}

/// Whether to try again.
#[derive(Debug, Clone, Copy, PartialEq, Eq, Structural)]
pub enum Verdict {
    /// Sleep, then try again.
    Again,
    /// Give up with the error of the last try.
    GiveUp,
}

/// Counts the tries of a command.
#[derive(Debug, Clone, Copy, PartialEq, Eq, Structural)]
pub struct Retries {
    /// How many tries have begun.
    pub tries: usize,
    /// How many tries may fail before the command is given up.
    pub max_tries: usize,
}

impl Retries {
    /// The count before the first try.
    pub open spec fn fresh(max_tries: usize) -> Retries {
        Retries { tries: 0, max_tries }
    }

    /// The count after another try has begun.
    pub open spec fn begun(self) -> Retries {
        Retries {
            tries: if self.tries < usize::MAX {
                (self.tries + 1) as usize
            } else {
                self.tries
            },
            ..self
        }
    }

    /// Whether to try again after a try has failed, given whether its error
    /// is one that trying again may mend: the command is given up once more
    /// than `max_tries` tries have begun.
    pub open spec fn verdict_when(self, retryable: bool) -> Verdict {
        if retryable && self.tries <= self.max_tries {
            Verdict::Again
        } else {
            Verdict::GiveUp
        }
    }

    /// Whether to try again after a try has failed with `err`.
    pub open spec fn verdict<TxError>(self, err: Error<TxError>) -> Verdict {
        self.verdict_when(err.retryable())
    }

    /// The count before the first try of a command of which `max_tries`
    /// tries may fail.
    pub fn new(max_tries: usize) -> (retries: Self)
        requires
            max_tries > 0,
        ensures
            retries == Self::fresh(max_tries),
    {
        Self { tries: 0, max_tries }
    }

    /// Notes that another try begins.
    pub fn begin(&mut self)
        ensures
            *final(self) == old(self).begun(),
    {
        self.tries = self.tries.saturating_add(1);
    }

    /// Whether to try again after a try has failed with `err`.
    pub fn judge<TxError>(&self, err: &Error<TxError>) -> (verdict: Verdict)
        ensures
            verdict == self.verdict(*err),
    {
        if err.is_retryable() && self.tries <= self.max_tries {
            Verdict::Again
        } else {
            Verdict::GiveUp
        }
    }
}

/// How a command ends whose first `failures` tries fail in a way that trying
/// again may mend, and whose next try succeeds: the count when it ends, and
/// whether it ends in success.
pub open spec fn outcome_after(retries: Retries, failures: nat) -> (Retries, bool)
    decreases failures,
{
    let now = retries.begun();
    if failures == 0 {
        (now, true)
    } else if now.verdict_when(true) == Verdict::GiveUp {
        (now, false)
    } else {
        outcome_after(now, (failures - 1) as nat)
    }
}

proof fn lemma_outcome_after(retries: Retries, failures: nat)
    requires
        retries.tries <= retries.max_tries < usize::MAX,
    ensures
        outcome_after(retries, failures) == if retries.tries + failures <= retries.max_tries {
            (
                Retries {
                    tries: (retries.tries + failures + 1) as usize,
                    max_tries: retries.max_tries,
                },
                true,
            )
        } else {
            (
                Retries { tries: (retries.max_tries + 1) as usize, max_tries: retries.max_tries },
                false,
            )
        },
    decreases failures,
{
    if failures > 0 && retries.tries < retries.max_tries {
        lemma_outcome_after(retries.begun(), (failures - 1) as nat);
    }
}

/// Retry bound: a command whose try number `n` is the first to succeed, all
/// tries before it failing in a way that trying again may mend, succeeds
/// with that try if `n` is at most one more than `max_tries`. Otherwise it
/// fails, after exactly one try more than `max_tries`.
pub proof fn lemma_retry_bound(max_tries: usize, n: nat)
    requires
        n >= 1,
        max_tries < usize::MAX,
    ensures
        outcome_after(Retries::fresh(max_tries), (n - 1) as nat) == if n <= max_tries + 1 {
            (Retries { tries: n as usize, max_tries }, true)
        } else {
            (Retries { tries: (max_tries + 1) as usize, max_tries }, false)
        },
{
    lemma_outcome_after(Retries::fresh(max_tries), (n - 1) as nat);
}

} // verus!
