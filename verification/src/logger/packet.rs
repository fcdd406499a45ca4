use crate::utc_date_time::UtcDateTime;
use vstd::prelude::*;

verus! {

/// The quality of a position fix.
#[derive(Debug, Clone, Copy, Hash, PartialEq, Eq, Structural)]
pub enum Fix {
    /// Fix not available.
    ///
    /// Corresponds to NMEA GGA quality 0.
    No,
    /// Normal GPS fix
    ///
    /// Corresponds to NMEA GGA quality 1.
    GpsFix,
    /// Differential GPS fix (enhanced quality).
    ///
    /// Corresponds to NMEA GGA quality 2.
    DGpsFix,
    /// Dead reckoning.
    ///
    /// Corresponds to NMEA GGA quality 6.
    DeadReckoning,
}

/// The fix a quality byte stands for. The bits are tested in a fixed order:
/// differential fix, plain fix, dead reckoning; a byte with none of them set
/// means no fix only if it is zero.
pub open spec fn fix_of(quality: u8) -> Option<Fix> {
    if quality & 0x04 == 0x04 {
        Some(Fix::DGpsFix)
    } else if quality & 0x02 == 0x02 {
        Some(Fix::GpsFix)
    } else if quality & 0x40 == 0x40 {
        Some(Fix::DeadReckoning)
    } else if quality == 0x00 {
        Some(Fix::No)
    } else {
        None
    }
}

impl Fix {
    /// Reads a quality byte.
    pub fn from_quality(quality: u8) -> (fix: Option<Fix>)
        ensures
            fix == fix_of(quality),
    {
        if quality & 0x04 == 0x04 {
            Some(Fix::DGpsFix)
        } else if quality & 0x02 == 0x02 {
            Some(Fix::GpsFix)
        } else if quality & 0x40 == 0x40 {
            Some(Fix::DeadReckoning)
        } else if quality == 0x00 {
            Some(Fix::No)
        } else {
            None
        }
    }
}

/// The magnitude of a binary32 number, as the bits below its sign bit.
pub open spec fn magnitude_bits(bits: u32) -> u32 {
    bits & 0x7FFF_FFFF
}

/// The bits of 90.0 as a binary32 number.
pub const LATITUDE_LIMIT_BITS: u32 = 0x42B4_0000;

/// The bits of 180.0 as a binary32 number.
pub const LONGITUDE_LIMIT_BITS: u32 = 0x4334_0000;

/// Whether the binary32 number with these bits lies in `-90.0..=90.0`.
///
/// Among numbers that are not negative, the greater number has the greater
/// bits, and infinities and NaNs lie above every finite number; so the number
/// is in range exactly when its magnitude bits do not exceed those of 90.0.
pub open spec fn latitude_in_range(bits: u32) -> bool {
    magnitude_bits(bits) <= LATITUDE_LIMIT_BITS
}

/// Whether the binary32 number with these bits lies in `-180.0..=180.0`.
pub open spec fn longitude_in_range(bits: u32) -> bool {
    magnitude_bits(bits) <= LONGITUDE_LIMIT_BITS
}

/// One logged position. A field is `None` where the sector does not record
/// it, or where the recorded value is not valid.
#[derive(Debug, Clone, Copy, PartialEq, Eq, Structural)]
pub struct Packet {
    pub time: Option<UtcDateTime>,
    pub fix: Option<Fix>,
    /// Degrees north, as the bits of a binary32 number.
    pub lat: Option<u32>,
    /// Degrees east, as the bits of a binary32 number.
    pub lon: Option<u32>,
    pub height: Option<i16>,
    pub speed: Option<i16>,
    /// In degrees
    pub heading: Option<u16>,
    pub hdop: Option<u16>,
    pub num_sat: Option<u8>,
}

impl Packet {
    /// The packet that records nothing.
    pub open spec fn empty() -> Packet {
        Packet {
            time: None,
            fix: None,
            lat: None,
            lon: None,
            height: None,
            speed: None,
            heading: None,
            hdop: None,
            num_sat: None,
        }
    }
}

impl Default for Packet {
    fn default() -> (packet: Self)
        ensures
            packet == Packet::empty(),
    {
        Self {
            time: None,
            fix: None,
            lat: None,
            lon: None,
            height: None,
            speed: None,
            heading: None,
            hdop: None,
            num_sat: None,
        }
    }
}

} // verus!
