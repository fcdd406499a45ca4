use super::{Checksum, CARRIAGE_RETURN, CHECKSUM_MARK, FIELD_MARK, LINE_FEED, PREFIX};
use super::{hex_pair_value, xor_of};
use crate::integer_percent::IntegerPercent;
use vstd::prelude::*;
use vstd::slice::{slice_subrange, slice_to_vec};

verus! {

/// Why a frame, or a field of one, could not be read.
#[derive(Debug, Clone, Copy, PartialEq, Eq, Structural, PartialOrd, Ord, Hash)]
pub enum Error {
    ExpectedPrefix,
    ExpectedName,
    ExpectedField,
    ExpectedChecksum,
    ChecksumParse,
    ExpectedSuffix,
    ExpectedEnd,
    WrongChecksum,
    ParseField,
}

/// The index of the first `,` or `*` of `frame` at or after `from`, or the
/// length of `frame` where there is none: where a name that starts at `from`
/// ends.
pub open spec fn name_end(frame: Seq<u8>, from: int) -> int
    decreases frame.len() - from,
{
    if from >= frame.len() {
        frame.len() as int
    } else if frame[from] == FIELD_MARK || frame[from] == CHECKSUM_MARK {
        from
    } else {
        name_end(frame, from + 1)
    }
}

/// The index of the first `*` of `frame` at or after `from`, or the length of
/// `frame` where there is none: where the fields that start at `from` end.
pub open spec fn fields_end(frame: Seq<u8>, from: int) -> int
    decreases frame.len() - from,
{
    if from >= frame.len() {
        frame.len() as int
    } else if frame[from] == CHECKSUM_MARK {
        from
    } else {
        fields_end(frame, from + 1)
    }
}

/// The fields that `bytes` holds, where `bytes` is empty or starts with `,`:
/// each `,` opens a field, and every other byte belongs to the field that was
/// opened last.
pub open spec fn fields_of(bytes: Seq<u8>) -> Seq<Seq<u8>>
    decreases bytes.len(),
{
    if bytes.len() == 0 {
        Seq::empty()
    } else {
        let before = fields_of(bytes.drop_last());
        if bytes.last() == FIELD_MARK {
            before.push(Seq::empty())
        } else if before.len() == 0 {
            before
        } else {
            before.drop_last().push(before.last().push(bytes.last()))
        }
    }
}

/// A frame's name and fields.
pub type Frame = (Seq<u8>, Seq<Seq<u8>>);

/// What `frame` reads as: its name and fields, or the first thing found
/// wrong with it.
pub open spec fn decode(frame: Seq<u8>) -> Result<Frame, Error> {
    if frame.len() == 0 || frame[0] != PREFIX {
        Err(Error::ExpectedPrefix)
    } else {
        let name_stop = name_end(frame, 1);
        let mark = fields_end(frame, name_stop);
        if name_stop == 1 || name_stop == frame.len() {
            Err(Error::ExpectedName)
        } else if mark == frame.len() {
            Err(Error::ExpectedField)
        } else if frame.len() < mark + 3 {
            Err(Error::ExpectedChecksum)
        } else {
            match hex_pair_value(frame[mark + 1], frame[mark + 2]) {
                None => Err(Error::ChecksumParse),
                Some(checksum) => {
                    if frame.len() < mark + 5 || frame[mark + 3] != CARRIAGE_RETURN || frame[mark
                        + 4] != LINE_FEED {
                        Err(Error::ExpectedSuffix)
                    } else if frame.len() > mark + 5 {
                        Err(Error::ExpectedEnd)
                    } else if checksum != xor_of(frame.subrange(1, mark)) {
                        Err(Error::WrongChecksum)
                    } else {
                        Ok(
                            (
                                frame.subrange(1, name_stop),
                                fields_of(frame.subrange(name_stop, mark)),
                            ),
                        )
                    }
                },
            }
        }
    }
}

/// The contents of owned fields.
pub open spec fn contents_of(fields: Seq<Vec<u8>>) -> Seq<Seq<u8>> {
    Seq::new(fields.len(), |i: int| fields[i]@)
}

/// Reads one frame. Returns a tuple of (name, fields).
pub fn parse(cmd: &[u8]) -> (parsed: Result<(Vec<u8>, Vec<Vec<u8>>), Error>)
    ensures
        match parsed {
            Ok((name, fields)) => decode(cmd@) == Ok::<Frame, Error>(
                (name@, contents_of(fields@)),
            ),
            Err(err) => decode(cmd@) == Err::<Frame, Error>(err),
        },
{
    let len: usize = cmd.len();
    if len == 0 || cmd[0] != PREFIX {
        return Err(Error::ExpectedPrefix);
    }
    // Name

    let mut name_stop: usize = 1;
    while name_stop < len && cmd[name_stop] != FIELD_MARK && cmd[name_stop] != CHECKSUM_MARK
        invariant
            len == cmd@.len(),
            1 <= name_stop <= len,
            name_end(cmd@, 1) == name_end(cmd@, name_stop as int),
        decreases len - name_stop,
    {
        name_stop += 1;
    }
    if name_stop == 1 || name_stop == len {
        return Err(Error::ExpectedName);
    }
    let name = slice_to_vec(slice_subrange(cmd, 1, name_stop));

    // Fields
    let mut fields: Vec<Vec<u8>> = Vec::new();
    let mut mark: usize = name_stop;
    while mark < len && cmd[mark] != CHECKSUM_MARK
        invariant
            len == cmd@.len(),
            name_stop <= mark <= len,
            cmd@[name_stop as int] == FIELD_MARK || cmd@[name_stop as int] == CHECKSUM_MARK,
            fields_end(cmd@, name_stop as int) == fields_end(cmd@, mark as int),
            contents_of(fields@) == fields_of(cmd@.subrange(name_stop as int, mark as int)),
            mark > name_stop ==> fields@.len() > 0,
        decreases len - mark,
    {
        let byte = cmd[mark];
        let ghost seen = cmd@.subrange(name_stop as int, mark as int);
        assert(cmd@.subrange(name_stop as int, mark + 1).drop_last() == seen);
        if byte == FIELD_MARK {
            fields.push(Vec::new());
        } else {
            let mut field = fields.pop().unwrap();
            field.push(byte);
            fields.push(field);
        }
        mark += 1;
    }
    if mark == len {
        return Err(Error::ExpectedField);
    }
    // Checksum

    if len - mark < 3 {
        return Err(Error::ExpectedChecksum);
    }
    let ascii: [u8; 2] = [cmd[mark + 1], cmd[mark + 2]];
    let checksum = match Checksum::parse(&ascii) {
        Ok(checksum) => checksum,
        Err(err) => {
            return Err(err);
        },
    };

    // Suffix
    if len - mark < 5 || cmd[mark + 3] != CARRIAGE_RETURN || cmd[mark + 4] != LINE_FEED {
        return Err(Error::ExpectedSuffix);
    }
    // End

    if len - mark > 5 {
        return Err(Error::ExpectedEnd);
    }
    // Check checksum

    let line = slice_subrange(cmd, 1, mark);  // between $ and *
    if checksum != Checksum::compute_for(line) {
        return Err(Error::WrongChecksum);
    }
    Ok((name, fields))
}

/// What `lexical_core::parse::<u32>` makes of `text`: the number, or `None`
/// where it reports an error.
pub uninterp spec fn decimal_u32(text: Seq<u8>) -> Option<u32>;

/// What `lexical_core::parse::<u8>` makes of `text`: the number, or `None`
/// where it reports an error.
pub uninterp spec fn decimal_u8(text: Seq<u8>) -> Option<u8>;

/// Calls `lexical_core::parse::<u32>`, which reads a whole byte string as a
/// decimal number, and drops the error's detail.
#[verifier::external_body]
fn parse_decimal_u32(val: &[u8]) -> (parsed: Option<u32>)
    ensures
        parsed == decimal_u32(val@),
{
    lexical_core::parse::<u32>(val).ok()
}

/// Calls `lexical_core::parse::<u8>`, which reads a whole byte string as a
/// decimal number, and drops the error's detail.
#[verifier::external_body]
fn parse_decimal_u8(val: &[u8]) -> (parsed: Option<u8>)
    ensures
        parsed == decimal_u8(val@),
{
    lexical_core::parse::<u8>(val).ok()
}

/// Reads a field that holds a decimal number.
pub fn integer_field(val: &[u8]) -> (parsed: Result<u32, Error>)
    ensures
        parsed == match decimal_u32(val@) {
            Some(number) => Ok::<u32, Error>(number),
            None => Err::<u32, Error>(Error::ParseField),
        },
{
    match parse_decimal_u32(val) {
        Some(number) => Ok(number),
        None => Err(Error::ParseField),
    }
}

/// The percentage for a number that was read from a field, if one was read
/// and it does not exceed 100.
pub open spec fn percent_of(number: Option<u8>) -> Result<IntegerPercent, Error> {
    match number {
        Some(val) => if val > 100 {
            Err(Error::ParseField)
        } else {
            Ok(IntegerPercent::of(val))
        },
        None => Err(Error::ParseField),
    }
}

/// The percentage for a number that was read from a field, if one was read
/// and it does not exceed 100.
pub fn percent_from(number: Option<u8>) -> (parsed: Result<IntegerPercent, Error>)
    ensures
        parsed == percent_of(number),
{
    match number {
        Some(val) => {
            if val > 100 {
                Err(Error::ParseField)
            } else {
                Ok(IntegerPercent::new(val))
            }
        },
        None => Err(Error::ParseField),
    }
}

/// Reads a field that holds a percentage as a decimal number.
pub fn integer_percent_field(val: &[u8]) -> (parsed: Result<IntegerPercent, Error>)
    ensures
        parsed == percent_of(decimal_u8(val@)),
{
    percent_from(parse_decimal_u8(val))
}

/// Whether two byte strings hold the same bytes.
pub fn bytes_equal(left: &[u8], right: &[u8]) -> (equal: bool)
    ensures
        equal == (left@ == right@),
{
    if left.len() != right.len() {
        return false;
    }
    let mut i: usize = 0;
    while i < left.len()
        invariant
            left@.len() == right@.len(),
            i <= left@.len(),
            left@.take(i as int) == right@.take(i as int),
        decreases left@.len() - i,
    {
        if left[i] != right[i] {
            return false;
        }
        i += 1;
    }
    assert(left@.take(i as int) == left@);
    assert(right@.take(i as int) == right@);
    true
}

/// Reads a field that holds one of two fixed texts as a truth value.
pub fn bool_field(val: &[u8], truthy: &[u8], falsy: &[u8]) -> (parsed: Result<bool, Error>)
    ensures
        parsed == if val@ == truthy@ {
            Ok::<bool, Error>(true)
        } else if val@ == falsy@ {
            Ok::<bool, Error>(false)
        } else {
            Err::<bool, Error>(Error::ParseField)
        },
{
    if bytes_equal(val, truthy) {
        Ok(true)
    } else if bytes_equal(val, falsy) {
        Ok(false)
    } else {
        Err(Error::ParseField)
    }
}

} // verus!
