//! Collecting the bytes of a log from a record of the traffic with the
//! receiver.
//!
//! The record holds the frames that the receiver sent, one to a line and
//! without their terminators. The log is what the frames between the one
//! that opens a dump and the one that closes it carry.

use super::logged_point::hex_byte;
use crate::cmd::parse::{decimal_u32, integer_field};
use crate::cmd::{carries_checksum, check_nmea_checksum, FIELD_MARK};
use vstd::prelude::*;
use vstd::slice::slice_subrange;

verus! {

/// `$PMTKLOX,0`, with which the frame that opens a dump starts.
pub const DUMP_START: [u8; 10] = [0x24, 0x50, 0x4d, 0x54, 0x4b, 0x4c, 0x4f, 0x58, 0x2c, 0x30];

/// `$PMTKLOX,2`, with which the frame that closes a dump starts.
pub const DUMP_END: [u8; 10] = [0x24, 0x50, 0x4d, 0x54, 0x4b, 0x4c, 0x4f, 0x58, 0x2c, 0x32];

/// `$PMTKLOX,1,`, with which a frame that carries data starts.
pub const DUMP_DATA: [u8; 11] = [
    0x24,
    0x50,
    0x4d,
    0x54,
    0x4b,
    0x4c,
    0x4f,
    0x58,
    0x2c,
    0x31,
    0x2c,
];

/// The length of what closes a line: `*` and the two digits of the checksum.
pub const CHECKSUM_SIZE: usize = 3;

/// Why a record of traffic does not hold a log.
#[derive(Debug, Clone, Copy, PartialEq, Eq, Structural)]
pub enum TrafficError {
    /// A line does not end in the checksum of what it holds.
    Checksum,
    /// A line within the dump does not carry data.
    ExpectedData,
    /// The number of a line that carries data cannot be read.
    Number,
    /// A line that carries data is not the one that comes next.
    OutOfOrder,
    /// The data of a line is not hexadecimal text.
    Hex,
}

/// Whether `text` starts with `head`.
pub open spec fn starts_with(text: Seq<u8>, head: Seq<u8>) -> bool {
    text.len() >= head.len() && text.take(head.len() as int) == head
}

/// Whether `text` starts with `head`.
pub fn has_prefix(text: &[u8], head: &[u8]) -> (has: bool)
    ensures
        has == starts_with(text@, head@),
{
    if text.len() < head.len() {
        return false;
    }
    let mut i: usize = 0;
    while i < head.len()
        invariant
            head@.len() <= text@.len(),
            i <= head@.len(),
            text@.take(i as int) == head@.take(i as int),
        decreases head@.len() - i,
    {
        if text[i] != head[i] {
            return false;
        }
        i += 1;
    }
    assert(head@.take(i as int) == head@);
    true
}

/// The index of the first `,` of `text` at or after `from`, or the length of
/// `text` where there is none.
pub open spec fn comma_at(text: Seq<u8>, from: int) -> int
    decreases text.len() - from,
{
    if from >= text.len() {
        text.len() as int
    } else if text[from] == FIELD_MARK {
        from
    } else {
        comma_at(text, from + 1)
    }
}

/// `text` without its commas.
pub open spec fn without_commas(text: Seq<u8>) -> Seq<u8> {
    text.filter(|byte: u8| byte != FIELD_MARK)
}

/// The bytes that hexadecimal text stands for, two digits of either case to
/// a byte, or `None` where the number of its digits is odd or it holds
/// something else.
pub open spec fn hex_text(text: Seq<u8>) -> Option<Seq<u8>> {
    if text.len() % 2 != 0 || exists|i: int|
        0 <= i < text.len() / 2 && (#[trigger] hex_byte(text, i)).is_none() {
        None
    } else {
        Some(Seq::new(text.len() / 2, |i: int| hex_byte(text, i).unwrap()))
    }
}

/// Calls `hex::decode`, which takes digits of either case, two to a byte,
/// and fails where the number of digits is odd or one of them is no
/// hexadecimal digit.
#[verifier::external_body]
fn decode_text(text: &[u8]) -> (bytes: Option<Vec<u8>>)
    ensures
        match bytes {
            Some(bytes) => hex_text(text@) == Some(bytes@),
            None => hex_text(text@).is_none(),
        },
{
    hex::decode(text).ok()
}

/// The log as far as it has been collected.
#[verifier::ext_equal]
pub struct LocusBinModel {
    pub bytes: Seq<u8>,
    pub seen_start: bool,
    pub data_line_i: u32,
    pub ended: bool,
}

/// What the body of a line that carries data adds to the log: the body is the
/// line's number and, behind a comma, its data in fields. The number has to
/// be the one that comes next.
pub open spec fn after_data(log: LocusBinModel, body: Seq<u8>) -> Result<
    LocusBinModel,
    TrafficError,
> {
    let comma = comma_at(body, 0);
    match decimal_u32(body.take(comma)) {
        None => Err(TrafficError::Number),
        Some(number) => if number != log.data_line_i {
            Err(TrafficError::OutOfOrder)
        } else {
            match hex_text(without_commas(body.skip(comma))) {
                None => Err(TrafficError::Hex),
                Some(bytes) => Ok(
                    LocusBinModel {
                        bytes: log.bytes + bytes,
                        data_line_i: if log.data_line_i < u32::MAX {
                            (log.data_line_i + 1) as u32
                        } else {
                            log.data_line_i
                        },
                        ..log
                    },
                ),
            }
        },
    }
}

/// The log after one more line of the record. Every line has to carry its
/// checksum. Lines before the one that opens the dump are passed over, and
/// so are lines behind the one that closes it.
pub open spec fn after_line(log: LocusBinModel, line: Seq<u8>) -> Result<
    LocusBinModel,
    TrafficError,
> {
    if log.ended {
        Ok(log)
    } else if !carries_checksum(line) {
        Err(TrafficError::Checksum)
    } else if starts_with(line, DUMP_START@) {
        Ok(LocusBinModel { seen_start: true, ..log })
    } else if !log.seen_start {
        Ok(log)
    } else if starts_with(line, DUMP_END@) {
        Ok(LocusBinModel { ended: true, ..log })
    } else if !starts_with(line, DUMP_DATA@) || line.len() < DUMP_DATA@.len() + CHECKSUM_SIZE {
        Err(TrafficError::ExpectedData)
    } else {
        after_data(log, line.subrange(DUMP_DATA@.len() as int, line.len() - CHECKSUM_SIZE))
    }
}

/// Collects the bytes of a log from the lines of a record.
#[derive(Debug)]
pub struct LocusBin {
    /// The bytes of the log so far.
    pub bytes: Vec<u8>,
    /// Whether the frame that opens the dump has been seen.
    pub seen_start: bool,
    /// The number of the line with data that comes next.
    pub data_line_i: u32,
    /// Whether the frame that closes the dump has been seen.
    pub ended: bool,
}

impl View for LocusBin {
    type V = LocusBinModel;

    open spec fn view(&self) -> LocusBinModel {
        LocusBinModel {
            bytes: self.bytes@,
            seen_start: self.seen_start,
            data_line_i: self.data_line_i,
            ended: self.ended,
        }
    }
}

/// `text` without its commas.
fn strip_commas(text: &[u8]) -> (stripped: Vec<u8>)
    ensures
        stripped@ == without_commas(text@),
{
    let mut stripped: Vec<u8> = Vec::new();
    let mut i: usize = 0;
    proof {
        reveal(Seq::filter);
    }
    while i < text.len()
        invariant
            i <= text@.len(),
            stripped@ == without_commas(text@.take(i as int)),
        decreases text@.len() - i,
    {
        proof {
            reveal(Seq::filter);
            assert(text@.take(i + 1).drop_last() == text@.take(i as int));
        }
        if text[i] != FIELD_MARK {
            stripped.push(text[i]);
        }
        i += 1;
    }
    assert(text@.take(i as int) == text@);
    stripped
}

impl LocusBin {
    /// A collector that has seen no line.
    pub fn new() -> (log: Self)
        ensures
            log@ == (LocusBinModel {
                bytes: Seq::empty(),
                seen_start: false,
                data_line_i: 0,
                ended: false,
            }),
    {
        Self { bytes: Vec::new(), seen_start: false, data_line_i: 0, ended: false }
    }

    fn take_data(&mut self, body: &[u8]) -> (taken: Result<(), TrafficError>)
        ensures
            match taken {
                Ok(()) => after_data(old(self)@, body@) == Ok::<LocusBinModel, TrafficError>(
                    final(self)@,
                ),
                Err(err) => after_data(old(self)@, body@) == Err::<LocusBinModel, TrafficError>(
                    err,
                ) && final(self)@ == old(self)@,
            },
    {
        let mut comma: usize = 0;
        while comma < body.len() && body[comma] != FIELD_MARK
            invariant
                comma <= body@.len(),
                comma_at(body@, 0) == comma_at(body@, comma as int),
            decreases body@.len() - comma,
        {
            comma += 1;
        }
        let number = match integer_field(slice_subrange(body, 0, comma)) {
            Ok(number) => number,
            Err(_) => {
                return Err(TrafficError::Number);
            },
        };
        if number != self.data_line_i {
            return Err(TrafficError::OutOfOrder);
        }
        let text = strip_commas(slice_subrange(body, comma, body.len()));
        let data = match decode_text(text.as_slice()) {
            Some(data) => data,
            None => {
                return Err(TrafficError::Hex);
            },
        };
        let mut i: usize = 0;
        while i < data.len()
            invariant
                i <= data@.len(),
                self.bytes@ == old(self).bytes@ + data@.take(i as int),
                self.seen_start == old(self).seen_start,
                self.data_line_i == old(self).data_line_i,
                self.ended == old(self).ended,
            decreases data@.len() - i,
        {
            self.bytes.push(data[i]);
            i += 1;
        }
        assert(data@.take(i as int) == data@);
        self.data_line_i = self.data_line_i.saturating_add(1);
        Ok(())
    }

    /// Takes the next line of the record.
    pub fn take_line(&mut self, line: &[u8]) -> (taken: Result<(), TrafficError>)
        ensures
            match taken {
                Ok(()) => after_line(old(self)@, line@) == Ok::<LocusBinModel, TrafficError>(
                    final(self)@,
                ),
                Err(err) => after_line(old(self)@, line@) == Err::<LocusBinModel, TrafficError>(
                    err,
                ) && final(self)@ == old(self)@,
            },
    {
        if self.ended {
            return Ok(());
        }
        if !check_nmea_checksum(line) {
            return Err(TrafficError::Checksum);
        }
        // Start

        if has_prefix(line, DUMP_START.as_slice()) {
            self.seen_start = true;
            return Ok(());
        }
        // Skip until see start

        if !self.seen_start {
            return Ok(());
        }
        // End

        if has_prefix(line, DUMP_END.as_slice()) {
            self.ended = true;
            return Ok(());
        }
        // Not data

        if !has_prefix(line, DUMP_DATA.as_slice()) || line.len() < DUMP_DATA.len()
            + CHECKSUM_SIZE {
            return Err(TrafficError::ExpectedData);
        }
        self.take_data(slice_subrange(line, DUMP_DATA.len(), line.len() - CHECKSUM_SIZE))
    }
}

} // verus!
