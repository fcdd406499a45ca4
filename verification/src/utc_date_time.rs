use crate::transact::{decimal_digits, u32_to_base10_ascii};
use vstd::prelude::*;

verus! {

/// A moment of the proleptic Gregorian calendar, in UTC.
#[derive(Debug, Clone, Copy, Hash, PartialEq, Eq, Structural, PartialOrd, Ord)]
pub struct UtcDateTime {
    pub year: i32,
    pub month: u8,
    pub day: u8,
    pub hour: u8,
    pub minute: u8,
    pub second: u8,
    pub microsecond: u32,
}

/// The moment that `time::OffsetDateTime::from_unix_timestamp` gives for
/// `timestamp`, by its calendar and clock fields, or `None` where it reports
/// that the timestamp is out of range.
pub uninterp spec fn utc_of_unix(timestamp: i64) -> Option<UtcDateTime>;

/// Calls `time::OffsetDateTime::from_unix_timestamp` and reads the fields of
/// the moment it returns.
#[verifier::external_body]
fn moment_of_unix(timestamp: i64) -> (moment: Option<UtcDateTime>)
    ensures
        moment == utc_of_unix(timestamp),
{
    match time::OffsetDateTime::from_unix_timestamp(timestamp) {
        Ok(at) => Some(
            UtcDateTime {
                year: at.year(),
                month: u8::from(at.month()),
                day: at.day(),
                hour: at.hour(),
                minute: at.minute(),
                second: at.second(),
                microsecond: at.microsecond(),
            },
        ),
        Err(_) => None,
    }
}

/// `digits` with as many `0` in front as it takes to make `width` bytes.
pub open spec fn zero_padded(digits: Seq<u8>, width: nat) -> Seq<u8> {
    if digits.len() >= width {
        digits
    } else {
        Seq::new((width - digits.len()) as nat, |i: int| 0x30u8) + digits
    }
}

/// `val` in decimal, with zeros in front up to `width` bytes.
pub open spec fn padded_decimal(val: nat, width: nat) -> Seq<u8> {
    zero_padded(decimal_digits(val), width)
}

/// A year in at least four bytes: the minus sign of a year before the year
/// zero counts as one of them.
pub open spec fn year_text(year: i32) -> Seq<u8> {
    if year < 0 {
        seq![0x2du8] + padded_decimal((-year) as nat, 3)
    } else {
        padded_decimal(year as nat, 4)
    }
}

/// `val` in decimal, with zeros in front up to `width` bytes.
fn pad_decimal(val: u32, width: usize) -> (text: Vec<u8>)
    ensures
        text@ == padded_decimal(val as nat, width as nat),
{
    let digits = u32_to_base10_ascii(val);
    let mut text: Vec<u8> = Vec::new();
    let mut i: usize = digits.len();
    while i < width
        invariant
            digits@.len() <= i,
            i == digits@.len() || i <= width,
            text@ == Seq::new((i - digits@.len()) as nat, |k: int| 0x30u8),
        decreases width - i,
    {
        text.push(0x30);
        i += 1;
    }
    let ghost zeros = text@;
    let mut k: usize = 0;
    while k < digits.len()
        invariant
            k <= digits@.len(),
            text@ == zeros + digits@.take(k as int),
        decreases digits@.len() - k,
    {
        text.push(digits[k]);
        k += 1;
    }
    text
}

/// Appends `more` to `text`.
fn append(text: &mut Vec<u8>, more: &Vec<u8>)
    ensures
        final(text)@ == old(text)@ + more@,
{
    let mut k: usize = 0;
    while k < more.len()
        invariant
            k <= more@.len(),
            text@ == old(text)@ + more@.take(k as int),
        decreases more@.len() - k,
    {
        text.push(more[k]);
        k += 1;
    }
}

/// Appends `byte` to `text`.
fn append_byte(text: &mut Vec<u8>, byte: u8)
    ensures
        final(text)@ == old(text)@ + seq![byte],
{
    text.push(byte);
}

/// Whether every byte of `text` is an ASCII character.
pub open spec fn is_ascii_text(text: Seq<u8>) -> bool {
    forall|i: int| 0 <= i < text.len() ==> text[i] < 0x80
}

/// The characters that ASCII text stands for.
pub open spec fn chars_of(text: Seq<u8>) -> Seq<char> {
    text.map_values(|byte: u8| byte as char)
}

/// Calls `String::from_utf8_lossy`, which reads ASCII text character by
/// character.
#[verifier::external_body]
fn string_of_ascii(text: &Vec<u8>) -> (string: String)
    ensures
        is_ascii_text(text@) ==> string@ == chars_of(text@),
{
    String::from_utf8_lossy(text).into_owned()
}

/// Decimal digits are ASCII text.
pub proof fn lemma_decimal_digits_are_ascii(val: nat)
    ensures
        is_ascii_text(decimal_digits(val)),
        decimal_digits(val).len() > 0,
    decreases val,
{
    if val >= 10 {
        lemma_decimal_digits_are_ascii(val / 10);
    }
}

/// A padded number is ASCII text.
pub proof fn lemma_padded_decimal_is_ascii(val: nat, width: nat)
    ensures
        is_ascii_text(padded_decimal(val, width)),
{
    lemma_decimal_digits_are_ascii(val);
}

impl UtcDateTime {
    /// The year; years before the year 1 are zero and negative.
    pub fn year(&self) -> (val: i32)
        ensures
            val == self.year,
    {
        self.year
    }

    /// The month of the year, from 1.
    pub fn month(&self) -> (val: u8)
        ensures
            val == self.month,
    {
        self.month
    }

    /// The day of the month, from 1.
    pub fn day(&self) -> (val: u8)
        ensures
            val == self.day,
    {
        self.day
    }

    /// The hour of the day.
    pub fn hour(&self) -> (val: u8)
        ensures
            val == self.hour,
    {
        self.hour
    }

    /// The minute of the hour.
    pub fn minute(&self) -> (val: u8)
        ensures
            val == self.minute,
    {
        self.minute
    }

    /// The second of the minute.
    pub fn second(&self) -> (val: u8)
        ensures
            val == self.second,
    {
        self.second
    }

    /// The microsecond of the second.
    pub fn microsecond(&self) -> (val: u32)
        ensures
            val == self.microsecond,
    {
        self.microsecond
    }

    /// The day in the form `YYYY-MM-DD`.
    pub open spec fn date_text(self) -> Seq<u8> {
        year_text(self.year) + seq![0x2du8] + padded_decimal(self.month as nat, 2) + seq![0x2du8]
            + padded_decimal(self.day as nat, 2)
    }

    /// The time of day in the form `HH:MM:SS.µ`.
    pub open spec fn clock_text(self) -> Seq<u8> {
        padded_decimal(self.hour as nat, 2) + seq![0x3au8] + padded_decimal(self.minute as nat, 2)
            + seq![0x3au8] + padded_decimal(self.second as nat, 2) + seq![0x2eu8]
            + decimal_digits(self.microsecond as nat)
    }

    /// The moment in the form `YYYY-MM-DD HH:MM:SS.µ UTC`, as ASCII text.
    pub open spec fn text(self) -> Seq<u8> {
        self.date_text() + seq![0x20u8] + self.clock_text() + seq![0x20u8, 0x55u8, 0x54u8, 0x43u8]
    }

    fn date_ascii(&self) -> (text: Vec<u8>)
        ensures
            text@ == self.date_text(),
    {
        let mut text: Vec<u8> = Vec::new();
        if self.year < 0 {
            let magnitude: u32 = (-(self.year as i64)) as u32;
            append_byte(&mut text, 0x2d);
            append(&mut text, &pad_decimal(magnitude, 3));
        } else {
            append(&mut text, &pad_decimal(self.year as u32, 4));
        }
        append_byte(&mut text, 0x2d);
        append(&mut text, &pad_decimal(self.month as u32, 2));
        append_byte(&mut text, 0x2d);
        append(&mut text, &pad_decimal(self.day as u32, 2));
        text
    }

    fn clock_ascii(&self) -> (text: Vec<u8>)
        ensures
            text@ == self.clock_text(),
    {
        let mut text = pad_decimal(self.hour as u32, 2);
        append_byte(&mut text, 0x3a);
        append(&mut text, &pad_decimal(self.minute as u32, 2));
        append_byte(&mut text, 0x3a);
        append(&mut text, &pad_decimal(self.second as u32, 2));
        append_byte(&mut text, 0x2e);
        append(&mut text, &u32_to_base10_ascii(self.microsecond));
        text
    }

    /// The moment in the form `YYYY-MM-DD HH:MM:SS.µ UTC`, as ASCII text.
    pub fn to_ascii(&self) -> (text: Vec<u8>)
        ensures
            text@ == self.text(),
    {
        let mut text = self.date_ascii();
        append_byte(&mut text, 0x20);
        append(&mut text, &self.clock_ascii());
        text.push(0x20);
        text.push(0x55);
        text.push(0x54);
        text.push(0x43);
        text
    }

    /// The text of a moment is ASCII.
    pub proof fn lemma_text_is_ascii(self)
        ensures
            is_ascii_text(self.text()),
    {
        lemma_padded_decimal_is_ascii((-self.year) as nat, 3);
        lemma_padded_decimal_is_ascii(self.year as nat, 4);
        lemma_padded_decimal_is_ascii(self.month as nat, 2);
        lemma_padded_decimal_is_ascii(self.day as nat, 2);
        lemma_padded_decimal_is_ascii(self.hour as nat, 2);
        lemma_padded_decimal_is_ascii(self.minute as nat, 2);
        lemma_padded_decimal_is_ascii(self.second as nat, 2);
        lemma_decimal_digits_are_ascii(self.microsecond as nat);
    }

    /// The moment in the form `YYYY-MM-DD HH:MM:SS.µ UTC`.
    pub fn to_string(&self) -> (string: String)
        ensures
            string@ == chars_of(self.text()),
    {
        let text = self.to_ascii();
        proof {
            self.lemma_text_is_ascii();
        }
        string_of_ascii(&text)
    }

    /// The moment `timestamp` seconds after the start of 1970, if the
    /// calendar reaches that far.
    pub fn from_unix(timestamp: i64) -> (moment: Option<Self>)
        ensures
            moment == utc_of_unix(timestamp),
    {
        moment_of_unix(timestamp)
    }
}

} // verus!
