//! The PMTK frame codec: `$NAME,field,...*CS\r\n`.
//!
//! Terminology: given `$PMTK183*38\r\n`, the line is `PMTK183`.

pub mod laws;
pub mod parse;
pub mod serialize;

pub use parse::Error as ParseError;

use lexical_core::FormattedSize;
use vstd::prelude::*;

verus! {

/// `$`, the first byte of every frame.
pub const PREFIX: u8 = 0x24;

/// `,`, which comes before every field.
pub const FIELD_MARK: u8 = 0x2c;

/// `*`, which separates the line from its checksum.
pub const CHECKSUM_MARK: u8 = 0x2a;

/// `\r`, the first byte of the frame terminator.
pub const CARRIAGE_RETURN: u8 = 0x0d;

/// `\n`, the second byte of the frame terminator.
pub const LINE_FEED: u8 = 0x0a;

/// `+`, which `lexical_core` takes as a sign in front of a number.
pub const PLUS_SIGN: u8 = 0x2b;

/// The packed `lexical_core` number format for plain hexadecimal: radix 16
/// for mantissa and exponent, and the two flags every standard format sets.
pub const HEXADECIMAL_FORMAT: u128 = 0x1010_1000_0000_0000_0000_0000_0000_000C;

/// The XOR of all bytes of `bytes`; 0 for the empty sequence.
pub open spec fn xor_of(bytes: Seq<u8>) -> u8
    decreases bytes.len(),
{
    if bytes.len() == 0 {
        0
    } else {
        xor_of(bytes.drop_last()) ^ bytes.last()
    }
}

/// The upper-case ASCII digit for `n`, where `n < 16`.
pub open spec fn hex_digit(n: u8) -> u8 {
    if n < 10 {
        (0x30 + n) as u8
    } else {
        (0x41 + (n - 10)) as u8
    }
}

/// The number a hexadecimal ASCII digit stands for, in either case.
pub open spec fn hex_value(c: u8) -> Option<u8> {
    if 0x30 <= c <= 0x39 {
        Some((c - 0x30) as u8)
    } else if 0x41 <= c <= 0x46 {
        Some((c - 0x41 + 10) as u8)
    } else if 0x61 <= c <= 0x66 {
        Some((c - 0x61 + 10) as u8)
    } else {
        None
    }
}

/// `val` in upper-case hexadecimal without padding: one digit below 16, else two.
pub open spec fn hex_digits(val: u8) -> Seq<u8> {
    if val < 16 {
        seq![hex_digit(val)]
    } else {
        seq![hex_digit(val / 16), hex_digit(val % 16)]
    }
}

/// `val` as the two upper-case hexadecimal digits a frame carries.
pub open spec fn hex_pair(val: u8) -> Seq<u8> {
    seq![hex_digit(val / 16), hex_digit(val % 16)]
}

/// The number that two hexadecimal digits of either case stand for, or
/// `None` where one of the two bytes is no hexadecimal digit.
pub open spec fn hex_pair_value(hi: u8, lo: u8) -> Option<u8> {
    match (hex_value(hi), hex_value(lo)) {
        (Some(h), Some(l)) => Some((16 * h + l) as u8),
        _ => None,
    }
}

/// What `lexical_core` makes of two bytes that it reads as a hexadecimal
/// number: it takes two digits of either case, and also a plus sign and one
/// digit.
pub open spec fn lexical_hex_pair(hi: u8, lo: u8) -> Option<u8> {
    match (hex_value(hi), hex_value(lo)) {
        (Some(h), Some(l)) => Some((16 * h + l) as u8),
        (None, Some(l)) => if hi == PLUS_SIGN {
            Some(l)
        } else {
            None
        },
        _ => None,
    }
}

/// Calls `lexical_core::parse_with_options` for `u8` in the hexadecimal
/// format. On two bytes it succeeds exactly when `lexical_hex_pair` gives a
/// number, and returns that number: leading zeros are skipped, a leading `+`
/// is taken as a sign, and two digits never exceed a `u8`.
#[verifier::external_body]
fn parse_hex_u8(ascii: &[u8; 2]) -> (parsed: Option<u8>)
    ensures
        parsed == lexical_hex_pair(ascii@[0], ascii@[1]),
{
    lexical_core::parse_with_options::<u8, HEXADECIMAL_FORMAT>(ascii, &Default::default()).ok()
}

/// Calls `lexical_core::write_with_options` for `u8` in the hexadecimal
/// format, which writes the digits in upper case without sign or padding.
#[verifier::external_body]
fn write_hex_u8(val: u8) -> (digits: Vec<u8>)
    ensures
        digits@ == hex_digits(val),
{
    let mut buf = [0_u8; u8::FORMATTED_SIZE];
    lexical_core::write_with_options::<u8, HEXADECIMAL_FORMAT>(
        val,
        &mut buf,
        &Default::default(),
    ).to_vec()
}

/// Whether `c` is a hexadecimal digit, of either case.
pub fn is_hex_digit(c: u8) -> (is_digit: bool)
    ensures
        is_digit == hex_value(c).is_some(),
{
    (0x30 <= c && c <= 0x39) || (0x41 <= c && c <= 0x46) || (0x61 <= c && c <= 0x66)
}

/// The checksum of a frame: the XOR of the bytes of its line.
#[derive(Debug, Clone, Copy, PartialEq, Eq, Structural)]
pub struct Checksum(u8);

impl Checksum {
    /// The byte the checksum holds.
    pub closed spec fn value(self) -> u8 {
        self.0
    }

    /// The checksum that holds `val`.
    pub fn new(val: u8) -> (checksum: Self)
        ensures
            checksum.value() == val,
    {
        Self(val)
    }

    /// The byte the checksum holds.
    pub fn as_u8(&self) -> (val: u8)
        ensures
            val == self.value(),
    {
        self.0
    }

    /// Reads the two hexadecimal digits that follow `*` in a frame. Both
    /// bytes have to be hexadecimal digits, of either case; anything else,
    /// a sign included, is no checksum.
    pub fn parse(ascii: &[u8; 2]) -> (parsed: Result<Self, ParseError>)
        ensures
            match parsed {
                Ok(checksum) => hex_pair_value(ascii@[0], ascii@[1]) == Some(checksum.value()),
                Err(err) => err == ParseError::ChecksumParse && hex_pair_value(
                    ascii@[0],
                    ascii@[1],
                ).is_none(),
            },
    {
        if !is_hex_digit(ascii[0]) || !is_hex_digit(ascii[1]) {
            return Err(ParseError::ChecksumParse);
        }
        match parse_hex_u8(ascii) {
            Some(val) => Ok(Self::new(val)),
            None => Err(ParseError::ChecksumParse),
        }
    }

    /// The checksum of `line`, the bytes between `$` and `*`.
    pub fn compute_for(line: &[u8]) -> (checksum: Self)
        ensures
            checksum.value() == xor_of(line@),
    {
        let mut num: u8 = 0;
        let mut i: usize = 0;
        while i < line.len()
            invariant
                i <= line@.len(),
                num == xor_of(line@.take(i as int)),
            decreases line@.len() - i,
        {
            assert(line@.take(i + 1).drop_last() == line@.take(i as int));
            num = num ^ line[i];
            i += 1;
        }
        assert(line@.take(i as int) == line@);
        Self::new(num)
    }

    /// The checksum as a frame carries it: two upper-case hexadecimal digits,
    /// with a leading zero below 16.
    pub fn to_ascii(&self) -> (ascii: [u8; 2])
        ensures
            ascii@ == hex_pair(self.value()),
    {
        let out = write_hex_u8(self.0);
        if out.len() == 1 {
            [0x30, out[0]]
        } else {
            [out[0], out[1]]
        }
    }
}

/// Whether `raw`, a frame without its terminator, ends in the checksum of its
/// line, written as the receiver writes it: `$`, the line, `*`, and two
/// upper-case hexadecimal digits.
pub open spec fn carries_checksum(raw: Seq<u8>) -> bool {
    raw.len() >= 4 && raw.subrange(raw.len() - 2, raw.len() as int) == hex_pair(
        xor_of(raw.subrange(1, raw.len() - 3)),
    )
}

/// Whether `raw`, a frame without its terminator, ends in the checksum of its
/// line.
pub fn check_nmea_checksum(raw: &[u8]) -> (ok: bool)
    ensures
        ok == carries_checksum(raw@),
{
    let len: usize = raw.len();
    if len < 4 {
        return false;
    }
    let line = vstd::slice::slice_subrange(raw, 1, len - 3);
    let actual = Checksum::compute_for(line).to_ascii();
    let ok = raw[len - 2] == actual[0] && raw[len - 1] == actual[1];
    proof {
        let expected = raw@.subrange(len - 2, len as int);
        if ok {
            assert(expected == actual@);
        }
    }
    ok
}

/// Whether `c` is a digit or one of the upper-case letters `A` to `F`.
pub open spec fn is_upper_hex(c: u8) -> bool {
    0x30 <= c <= 0x39 || 0x41 <= c <= 0x46
}

/// A checksum is always written as two upper-case hexadecimal digits, of
/// which the first is `0` below 16.
pub proof fn lemma_hex_pair_is_upper_hex(val: u8)
    ensures
        hex_pair(val).len() == 2,
        is_upper_hex(hex_pair(val)[0]),
        is_upper_hex(hex_pair(val)[1]),
        val < 16 ==> hex_pair(val)[0] == 0x30,
{
}

/// Reading back the two digits of a checksum gives the checksum.
pub proof fn lemma_hex_pair_reads_back(val: u8)
    ensures
        hex_pair(val).len() == 2,
        hex_pair_value(hex_pair(val)[0], hex_pair(val)[1]) == Some(val),
{
}

} // verus!
