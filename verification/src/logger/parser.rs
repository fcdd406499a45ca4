use super::packet::{fix_of, latitude_in_range, longitude_in_range};
use super::packet::{LATITUDE_LIMIT_BITS, LONGITUDE_LIMIT_BITS};
use super::{Fix, Packet};
use crate::cmd::xor_of;
use crate::utc_date_time::{utc_of_unix, UtcDateTime};
use vstd::prelude::*;
use vstd::slice::slice_subrange;

verus! {

/// The highest bit number of a byte of the packet bitmap.
pub const MAX_HEADER2_BIT_NUM: u32 = 7;

/// The length of a sector's header.
pub const HEADER_SIZE: usize = 64;

/// The length of the first part of the header, which its checksum closes.
pub const HEADER1_SIZE: usize = 16;

/// The length of what the header's checksum covers.
pub const HEADER1_CS_BUF_SIZE: usize = 14;

/// The length of the second part of the header, the packet bitmap.
pub const HEADER2_SIZE: usize = 48;

/// The length of a sector's data area.
pub const DATA_SIZE: usize = 4032;

/// The length of the checksum that closes a packet.
pub const DATA_CHECKSUM_SIZE: usize = 1;

/// The length of a sector.
pub const SECTOR_SIZE: usize = 4096;

/// Whether numbers of more than one byte have their low byte first. Nothing
/// documents the order; the low byte first is the common one.
pub const LITTLE_ENDIAN: bool = true;

/// The 16-bit number whose bytes stand at `at` in `buf`, low byte first.
pub open spec fn le_u16(buf: Seq<u8>, at: int) -> u16 {
    (buf[at] + 0x100 * buf[at + 1]) as u16
}

/// The 16-bit number whose bytes stand at `at` in `buf`, high byte first.
pub open spec fn be_u16(buf: Seq<u8>, at: int) -> u16 {
    (buf[at + 1] + 0x100 * buf[at]) as u16
}

/// The 32-bit number whose bytes stand at `at` in `buf`, low byte first.
pub open spec fn le_u32(buf: Seq<u8>, at: int) -> u32 {
    (buf[at] + 0x100 * buf[at + 1] + 0x1_0000 * buf[at + 2] + 0x100_0000 * buf[at + 3]) as u32
}

/// The 32-bit number whose bytes stand at `at` in `buf`, high byte first.
pub open spec fn be_u32(buf: Seq<u8>, at: int) -> u32 {
    (buf[at + 3] + 0x100 * buf[at + 2] + 0x1_0000 * buf[at + 1] + 0x100_0000 * buf[at]) as u32
}

/// The 16-bit number that stands at `at` in `buf`.
pub open spec fn u16_at(buf: Seq<u8>, at: int) -> u16 {
    if LITTLE_ENDIAN {
        le_u16(buf, at)
    } else {
        be_u16(buf, at)
    }
}

/// The 32-bit number that stands at `at` in `buf`.
pub open spec fn u32_at(buf: Seq<u8>, at: int) -> u32 {
    if LITTLE_ENDIAN {
        le_u32(buf, at)
    } else {
        be_u32(buf, at)
    }
}

/// The signed 16-bit number that stands at `at` in `buf` in two's
/// complement.
pub open spec fn i16_at(buf: Seq<u8>, at: int) -> i16 {
    if u16_at(buf, at) < 0x8000 {
        u16_at(buf, at) as i16
    } else {
        (u16_at(buf, at) - 0x1_0000) as i16
    }
}

/// Reads the 32-bit number that stands at `start` in `buf`.
pub fn read_u32_at(buf: &[u8], start: usize) -> (val: u32)
    requires
        start + 4 <= buf@.len(),
    ensures
        val == u32_at(buf@, start as int),
{
    let b0: u32 = buf[start] as u32;
    let b1: u32 = buf[start + 1] as u32;
    let b2: u32 = buf[start + 2] as u32;
    let b3: u32 = buf[start + 3] as u32;
    if LITTLE_ENDIAN {
        b0 + 0x100 * b1 + 0x1_0000 * b2 + 0x100_0000 * b3
    } else {
        b3 + 0x100 * b2 + 0x1_0000 * b1 + 0x100_0000 * b0
    }
}

/// Reads the 16-bit number that stands at `start` in `buf`.
pub fn read_u16_at(buf: &[u8], start: usize) -> (val: u16)
    requires
        start + 2 <= buf@.len(),
    ensures
        val == u16_at(buf@, start as int),
{
    let b0: u16 = buf[start] as u16;
    let b1: u16 = buf[start + 1] as u16;
    if LITTLE_ENDIAN {
        b0 + 0x100 * b1
    } else {
        b1 + 0x100 * b0
    }
}

/// Reads the signed 16-bit number that stands at `start` in `buf`.
pub fn read_i16_at(buf: &[u8], start: usize) -> (val: i16)
    requires
        start + 2 <= buf@.len(),
    ensures
        val == i16_at(buf@, start as int),
{
    let raw: u16 = read_u16_at(buf, start);
    if raw < 0x8000 {
        raw as i16
    } else {
        (raw as i32 - 0x1_0000) as i16
    }
}

/// Reads two bytes as a 16-bit number.
pub fn pair_as_u16(pair: &[u8]) -> (val: u16)
    requires
        pair@.len() == 2,
    ensures
        val == u16_at(pair@, 0),
{
    read_u16_at(pair, 0)
}

/// The XOR of the bytes of `bytes`.
pub fn u8_checksum_for(bytes: &[u8]) -> (sum: u8)
    ensures
        sum == xor_of(bytes@),
{
    let mut sum: u8 = 0;
    let mut i: usize = 0;
    while i < bytes.len()
        invariant
            i <= bytes@.len(),
            sum == xor_of(bytes@.take(i as int)),
        decreases bytes@.len() - i,
    {
        assert(bytes@.take(i + 1).drop_last() == bytes@.take(i as int));
        sum = sum ^ bytes[i];
        i += 1;
    }
    assert(bytes@.take(i as int) == bytes@);
    sum
}

/// The XOR of the 16-bit words that `bytes` holds; a byte
/// left over at the end counts for nothing.
pub open spec fn xor_of_words(bytes: Seq<u8>) -> u16
    decreases bytes.len(),
{
    if bytes.len() < 2 {
        0
    } else {
        xor_of_words(bytes.take(bytes.len() - 2)) ^ u16_at(bytes, bytes.len() - 2)
    }
}

/// Interprets the byte slice as a slice of `u16`s, and computes their checksum.
pub fn u16_checksum_for(bytes: &[u8]) -> (sum: u16)
    requires
        bytes@.len() % 2 == 0,
    ensures
        sum == xor_of_words(bytes@),
{
    let mut sum: u16 = 0;
    let mut i: usize = 0;
    while i < bytes.len()
        invariant
            bytes@.len() % 2 == 0,
            i % 2 == 0,
            i <= bytes@.len(),
            sum == xor_of_words(bytes@.take(i as int)),
        decreases bytes@.len() - i,
    {
        let pair = slice_subrange(bytes, i, i + 2);
        proof {
            let longer = bytes@.take(i + 2);
            assert(longer.take(longer.len() - 2) == bytes@.take(i as int));
        }
        sum = sum ^ pair_as_u16(pair);
        i += 2;
    }
    assert(bytes@.take(i as int) == bytes@);
    sum
}

/// Which fields the packets of a sector record.
#[derive(Debug, Clone, Copy, PartialEq, Eq, Structural, Hash)]
pub struct ContentFlags {
    pub bits: u32,
}

impl ContentFlags {
    /// The time, as seconds since the start of 1970 in 4 bytes.
    pub const UTC: u32 = 0x0001;

    /// The quality of the fix, in 1 byte.
    pub const VALID: u32 = 0x0002;

    /// The latitude, as a binary32 number in 4 bytes.
    pub const LAT: u32 = 0x0004;

    /// The longitude, as a binary32 number in 4 bytes.
    pub const LON: u32 = 0x0008;

    /// The height, as a signed number in 2 bytes.
    pub const HEIGHT: u32 = 0x0010;

    /// The speed, as a signed number in 2 bytes.
    pub const SPEED: u32 = 0x0020;

    /// The heading, in 2 bytes.
    pub const TRK: u32 = 0x0040;

    /// The horizontal dilution of precision, in 2 bytes.
    pub const HDOP: u32 = 0x0400;

    /// The number of satellites, in 1 byte.
    pub const NUM_SAT: u32 = 0x1000;

    /// All the flags that are known.
    pub const ALL: u32 = 0x147F;

    /// Whether the bit of `flag` is set.
    pub open spec fn has(self, flag: u32) -> bool {
        self.bits & flag == flag
    }

    /// Takes the known flags of `bits` and drops the rest.
    pub fn from_bits_truncate(bits: u32) -> (flags: Self)
        ensures
            flags.bits == bits & Self::ALL,
    {
        Self { bits: bits & Self::ALL }
    }

    /// Whether the bit of `flag` is set.
    pub fn contains(&self, flag: u32) -> (set: bool)
        ensures
            set == self.has(flag),
    {
        self.bits & flag == flag
    }
}

/// The length of a field that takes `size` bytes where it is recorded.
pub open spec fn field_size(content: ContentFlags, flag: u32, size: int) -> int {
    if content.has(flag) {
        size
    } else {
        0
    }
}

/// The length of a packet with these contents, its checksum included.
pub open spec fn packet_size_of(content: ContentFlags) -> int {
    field_size(content, ContentFlags::UTC, 4) + field_size(content, ContentFlags::VALID, 1)
        + field_size(content, ContentFlags::LAT, 4) + field_size(content, ContentFlags::LON, 4)
        + field_size(content, ContentFlags::HEIGHT, 2) + field_size(
        content,
        ContentFlags::SPEED,
        2,
    ) + field_size(content, ContentFlags::TRK, 2) + field_size(content, ContentFlags::HDOP, 2)
        + field_size(content, ContentFlags::NUM_SAT, 1) + DATA_CHECKSUM_SIZE
}

/// The length of a packet with these contents, its checksum included.
pub fn packet_size(content: ContentFlags) -> (size: u32)
    ensures
        size == packet_size_of(content),
        1 <= size <= 23,
{
    let mut size: u32 = 0;

    if content.contains(ContentFlags::UTC) {
        size += 4;
    }
    if content.contains(ContentFlags::VALID) {
        size += 1;
    }
    if content.contains(ContentFlags::LAT) {
        size += 4;
    }
    if content.contains(ContentFlags::LON) {
        size += 4;
    }
    if content.contains(ContentFlags::HEIGHT) {
        size += 2;
    }
    if content.contains(ContentFlags::TRK) {
        size += 2;
    }
    if content.contains(ContentFlags::SPEED) {
        size += 2;
    }
    if content.contains(ContentFlags::HDOP) {
        size += 2;
    }
    if content.contains(ContentFlags::NUM_SAT) {
        size += 1;
    }
    size += 1;

    size
}

/// The index of the last byte among the first `upto` bytes of `bitmap` that is
/// not `0xFF`, or -1 if all of them are.
pub open spec fn last_written(bitmap: Seq<u8>, upto: int) -> int
    decreases upto,
{
    if upto <= 0 {
        -1
    } else if bitmap[upto - 1] != 0xFF {
        upto - 1
    } else {
        last_written(bitmap, upto - 1)
    }
}

/// The least number of places, counted up from `from`, by which `byte` has to
/// be shifted right to become zero; 8 where shifting by 7 leaves a bit.
pub open spec fn shifts_to_clear(byte: u8, from: u32) -> u32
    decreases 8 - from,
{
    if from > MAX_HEADER2_BIT_NUM || (byte >> from) == 0 {
        from
    } else {
        shifts_to_clear(byte, (from + 1) as u32)
    }
}

/// The number of packets a bitmap stands for whose last written byte is at
/// `index` and holds `byte`.
pub open spec fn packets_marked(index: int, byte: u8) -> int {
    let shifts = shifts_to_clear(byte, 0);
    if shifts == 0 {
        (index + 1) * 8
    } else {
        index * 8 + (MAX_HEADER2_BIT_NUM + 1 - shifts)
    }
}

/// The number of packets that the bitmap of `header` stands for.
pub open spec fn packet_count_of(header: Seq<u8>) -> int {
    let bitmap = header.subrange(HEADER1_SIZE as int, HEADER_SIZE as int);
    let index = last_written(bitmap, HEADER2_SIZE as int);
    if index < 0 {
        0
    } else {
        packets_marked(index, bitmap[index])
    }
}

/// Counts the packets of a sector from the bitmap in its header.
pub fn packet_count(header: &[u8]) -> (count: u32)
    requires
        header@.len() >= HEADER_SIZE,
    ensures
        count == packet_count_of(header@),
        count <= 8 * HEADER2_SIZE,
{
    let ghost bitmap = header@.subrange(HEADER1_SIZE as int, HEADER_SIZE as int);
    let mut data: u8 = 0xFF;
    let mut upto: usize = HEADER2_SIZE;
    while upto > 0
        invariant
            header@.len() >= HEADER_SIZE,
            bitmap == header@.subrange(HEADER1_SIZE as int, HEADER_SIZE as int),
            upto <= HEADER2_SIZE,
            last_written(bitmap, HEADER2_SIZE as int) == last_written(bitmap, upto as int),
        ensures
            upto <= HEADER2_SIZE,
            last_written(bitmap, HEADER2_SIZE as int) == upto - 1,
            upto > 0 ==> data == bitmap[upto - 1],
        decreases upto,
    {
        data = header[HEADER1_SIZE + upto - 1];
        if data != 0xFF {
            break ;
        }
        upto -= 1;
    }
    if upto == 0 {
        return 0;
    }
    let index: u32 = (upto - 1) as u32;

    let mut shifts: u32 = 0;
    while shifts <= MAX_HEADER2_BIT_NUM
        invariant
            shifts <= MAX_HEADER2_BIT_NUM + 1,
            shifts_to_clear(data, 0) == shifts_to_clear(data, shifts),
        ensures
            shifts <= MAX_HEADER2_BIT_NUM + 1,
            shifts_to_clear(data, 0) == shifts,
        decreases MAX_HEADER2_BIT_NUM + 1 - shifts,
    {
        if (data >> shifts) == 0 {
            break ;
        }
        shifts += 1;
    }

    let mut num_byte: u32 = index;
    let num_bit: u32;
    if shifts == 0 {
        num_byte += 1;
        num_bit = 0;
    } else {
        num_bit = MAX_HEADER2_BIT_NUM + 1 - shifts;
    }

    num_byte * 8 + num_bit
}

/// What a sector's header says of its packets.
#[derive(Debug, Clone, Copy, PartialEq, Eq, Structural)]
pub struct SectorHeader {
    pub content_flags: ContentFlags,
    pub packet_size: u32,
    pub packet_count: u32,
}

/// What the first 64 bytes of a sector say of its packets, or `None` where the
/// checksum of the header's first part is wrong.
pub open spec fn sector_header_of(header: Seq<u8>) -> Option<SectorHeader> {
    if xor_of_words(header.take(HEADER1_CS_BUF_SIZE as int)) != u16_at(
        header,
        HEADER1_CS_BUF_SIZE as int,
    ) {
        None
    } else {
        let content_flags = ContentFlags { bits: u32_at(header, 4) & ContentFlags::ALL };
        Some(
            SectorHeader {
                content_flags,
                packet_size: packet_size_of(content_flags) as u32,
                packet_count: packet_count_of(header) as u32,
            },
        )
    }
}

impl SectorHeader {
    /// Whether the header describes packets of the length its flags call for.
    pub open spec fn wf(self) -> bool {
        self.packet_size == packet_size_of(self.content_flags)
    }

    /// Reads the header of a sector.
    pub fn parse(header: &[u8]) -> (parsed: Option<Self>)
        requires
            header@.len() >= HEADER_SIZE,
        ensures
            parsed == sector_header_of(header@),
            parsed.is_some() ==> parsed.unwrap().wf(),
    {
        let expected_checksum = read_u16_at(header, HEADER1_CS_BUF_SIZE);
        let checksum = u16_checksum_for(slice_subrange(header, 0, HEADER1_CS_BUF_SIZE));
        assert(header@.subrange(0, HEADER1_CS_BUF_SIZE as int) == header@.take(
            HEADER1_CS_BUF_SIZE as int,
        ));
        if checksum != expected_checksum {
            return None;
        }
        let content_flags = read_u32_at(header, 4);
        let content_flags = ContentFlags::from_bits_truncate(content_flags);
        let packet_size = packet_size(content_flags);

        let packet_count = packet_count(header);

        Some(Self { content_flags, packet_size, packet_count })
    }
}

/// What a pass over an image has counted.
#[derive(Debug, Clone, Copy, PartialEq, Eq, Structural)]
pub struct Stats {
    pub sector_count: usize,
    pub invalid_sectors: usize,
    pub empty_sectors: usize,
    pub invalid_packets: usize,
    pub packets_parsed: usize,
    pub invalid_fields: usize,
}

/// A counter that stood at `before` after `more` further counts; it stops at
/// the greatest number it can hold.
pub open spec fn counted(before: usize, more: nat) -> usize {
    if before + more > usize::MAX {
        usize::MAX
    } else {
        (before + more) as usize
    }
}

/// What a stretch of an image holds: its packets in order, and how often each
/// thing that is counted occurs in it.
pub struct Tally {
    pub packets: Seq<Packet>,
    pub invalid_sectors: nat,
    pub empty_sectors: nat,
    pub invalid_packets: nat,
    pub packets_parsed: nat,
    pub invalid_fields: nat,
}

impl Tally {
    /// The tally of nothing.
    pub open spec fn none() -> Tally {
        Tally {
            packets: Seq::empty(),
            invalid_sectors: 0,
            empty_sectors: 0,
            invalid_packets: 0,
            packets_parsed: 0,
            invalid_fields: 0,
        }
    }

    /// The tally of a stretch followed by another.
    pub open spec fn plus(self, next: Tally) -> Tally {
        Tally {
            packets: self.packets + next.packets,
            invalid_sectors: self.invalid_sectors + next.invalid_sectors,
            empty_sectors: self.empty_sectors + next.empty_sectors,
            invalid_packets: self.invalid_packets + next.invalid_packets,
            packets_parsed: self.packets_parsed + next.packets_parsed,
            invalid_fields: self.invalid_fields + next.invalid_fields,
        }
    }
}

/// Where the quality byte stands in a packet, if it is recorded.
pub open spec fn offset_valid(content: ContentFlags) -> int {
    field_size(content, ContentFlags::UTC, 4)
}

/// Where the latitude stands in a packet, if it is recorded.
pub open spec fn offset_lat(content: ContentFlags) -> int {
    offset_valid(content) + field_size(content, ContentFlags::VALID, 1)
}

/// Where the longitude stands in a packet, if it is recorded.
pub open spec fn offset_lon(content: ContentFlags) -> int {
    offset_lat(content) + field_size(content, ContentFlags::LAT, 4)
}

/// Where the height stands in a packet, if it is recorded.
pub open spec fn offset_height(content: ContentFlags) -> int {
    offset_lon(content) + field_size(content, ContentFlags::LON, 4)
}

/// Where the speed stands in a packet, if it is recorded.
pub open spec fn offset_speed(content: ContentFlags) -> int {
    offset_height(content) + field_size(content, ContentFlags::HEIGHT, 2)
}

/// Where the heading stands in a packet, if it is recorded.
pub open spec fn offset_trk(content: ContentFlags) -> int {
    offset_speed(content) + field_size(content, ContentFlags::SPEED, 2)
}

/// Where the dilution of precision stands in a packet, if it is recorded.
pub open spec fn offset_hdop(content: ContentFlags) -> int {
    offset_trk(content) + field_size(content, ContentFlags::TRK, 2)
}

/// Where the number of satellites stands in a packet, if it is recorded.
pub open spec fn offset_num_sat(content: ContentFlags) -> int {
    offset_hdop(content) + field_size(content, ContentFlags::HDOP, 2)
}

/// The time of the packet in `data`: recorded as seconds since the start of
/// 1970, and left out where the calendar does not reach that far.
pub open spec fn time_of(content: ContentFlags, data: Seq<u8>) -> Option<UtcDateTime> {
    if content.has(ContentFlags::UTC) {
        utc_of_unix(u32_at(data, 0) as i64)
    } else {
        None
    }
}

/// The latitude of the packet in `data`, left out where it is beyond 90
/// degrees.
pub open spec fn lat_of(content: ContentFlags, data: Seq<u8>) -> Option<u32> {
    if content.has(ContentFlags::LAT) && latitude_in_range(u32_at(data, offset_lat(content))) {
        Some(u32_at(data, offset_lat(content)))
    } else {
        None
    }
}

/// The longitude of the packet in `data`, left out where it is beyond 180
/// degrees.
pub open spec fn lon_of(content: ContentFlags, data: Seq<u8>) -> Option<u32> {
    if content.has(ContentFlags::LON) && longitude_in_range(u32_at(data, offset_lon(content))) {
        Some(u32_at(data, offset_lon(content)))
    } else {
        None
    }
}

/// The packet that `data` holds, which is a packet's bytes without its
/// checksum. The fields stand in a fixed order, each only where `content`
/// records it. A time the calendar does not reach, a quality byte that means
/// nothing, a latitude beyond 90 degrees and a longitude beyond 180 degrees
/// are left out.
pub open spec fn packet_of(content: ContentFlags, data: Seq<u8>) -> Packet {
    Packet {
        time: time_of(content, data),
        fix: if content.has(ContentFlags::VALID) {
            fix_of(data[offset_valid(content)])
        } else {
            None
        },
        lat: lat_of(content, data),
        lon: lon_of(content, data),
        height: if content.has(ContentFlags::HEIGHT) {
            Some(i16_at(data, offset_height(content)))
        } else {
            None
        },
        speed: if content.has(ContentFlags::SPEED) {
            Some(i16_at(data, offset_speed(content)))
        } else {
            None
        },
        heading: if content.has(ContentFlags::TRK) {
            Some(u16_at(data, offset_trk(content)))
        } else {
            None
        },
        hdop: if content.has(ContentFlags::HDOP) {
            Some(u16_at(data, offset_hdop(content)))
        } else {
            None
        },
        num_sat: if content.has(ContentFlags::NUM_SAT) {
            Some(data[offset_num_sat(content)])
        } else {
            None
        },
    }
}

/// 1 where `dropped` holds, else 0.
pub open spec fn one_if(dropped: bool) -> nat {
    if dropped {
        1
    } else {
        0
    }
}

/// The number of fields that `content` records and `packet_of` leaves out of
/// the packet in `data`.
pub open spec fn invalid_fields_of(content: ContentFlags, data: Seq<u8>) -> nat {
    let packet = packet_of(content, data);
    one_if(content.has(ContentFlags::UTC) && packet.time.is_none()) + one_if(
        content.has(ContentFlags::VALID) && packet.fix.is_none(),
    ) + one_if(content.has(ContentFlags::LAT) && packet.lat.is_none()) + one_if(
        content.has(ContentFlags::LON) && packet.lon.is_none(),
    )
}

/// The tally of one packet: `packet` is its bytes, of which the last is the
/// XOR of the others. Where it is not, the packet counts as invalid and is
/// not read.
pub open spec fn packet_tally(content: ContentFlags, packet: Seq<u8>) -> Tally {
    if xor_of(packet.drop_last()) != packet.last() {
        Tally { invalid_packets: 1, ..Tally::none() }
    } else {
        Tally {
            packets: seq![packet_of(content, packet.drop_last())],
            packets_parsed: 1,
            invalid_fields: invalid_fields_of(content, packet.drop_last()),
            ..Tally::none()
        }
    }
}

/// The tally of the first `count` packets of `body`, each `size` bytes long.
pub open spec fn packets_tally(content: ContentFlags, body: Seq<u8>, size: int, count: int) -> Tally
    decreases count,
{
    if count <= 0 {
        Tally::none()
    } else {
        packets_tally(content, body, size, count - 1).plus(
            packet_tally(content, body.subrange((count - 1) * size, count * size)),
        )
    }
}

/// The number of packets that are read from a sector of `sector_len` bytes
/// with this header: those the header counts, as far as they lie within the
/// sector.
pub open spec fn packets_within(header: SectorHeader, sector_len: int) -> int {
    let room = (sector_len - HEADER_SIZE) / (header.packet_size as int);
    if header.packet_count <= room {
        header.packet_count as int
    } else {
        room
    }
}

/// The tally of one sector, which starts with its header.
pub open spec fn sector_tally(sector: Seq<u8>) -> Tally {
    match sector_header_of(sector.take(HEADER_SIZE as int)) {
        None => Tally { invalid_sectors: 1, ..Tally::none() },
        Some(header) => if header.packet_count == 0 {
            Tally { empty_sectors: 1, ..Tally::none() }
        } else {
            packets_tally(
                header.content_flags,
                sector.skip(HEADER_SIZE as int),
                header.packet_size as int,
                packets_within(header, sector.len() as int),
            )
        },
    }
}

/// The tally of the first `count` sectors of `data`.
pub open spec fn image_tally(data: Seq<u8>, count: int) -> Tally
    decreases count,
{
    if count <= 0 {
        Tally::none()
    } else {
        image_tally(data, count - 1).plus(
            sector_tally(data.subrange((count - 1) * SECTOR_SIZE, count * SECTOR_SIZE)),
        )
    }
}

/// Reads the time and the quality byte of a packet. Returns them with the
/// number of the two that are recorded but not valid.
fn read_time_and_fix(content: ContentFlags, data: &[u8]) -> (read: (
    Option<UtcDateTime>,
    Option<Fix>,
    usize,
))
    requires
        data@.len() + DATA_CHECKSUM_SIZE == packet_size_of(content),
    ensures
        read.0 == time_of(content, data@),
        read.1 == packet_of(content, data@).fix,
        read.2 == one_if(content.has(ContentFlags::UTC) && read.0.is_none()) + one_if(
            content.has(ContentFlags::VALID) && read.1.is_none(),
        ),
{
    let mut addr: usize = 0;
    let mut time: Option<UtcDateTime> = None;
    let mut fix: Option<Fix> = None;
    let mut invalid_fields: usize = 0;
    if content.contains(ContentFlags::UTC) {
        let seconds = read_u32_at(data, addr) as i64;
        time = UtcDateTime::from_unix(seconds);
        if time.is_none() {
            invalid_fields += 1;
        }
        addr += 4;
    }
    if content.contains(ContentFlags::VALID) {
        fix = Fix::from_quality(data[addr]);
        if fix.is_none() {
            invalid_fields += 1;
        }
    }
    (time, fix, invalid_fields)
}

/// Reads the position of a packet. Returns latitude and longitude with the
/// number of the two that are recorded but not valid.
fn read_position(content: ContentFlags, data: &[u8]) -> (read: (Option<u32>, Option<u32>, usize))
    requires
        data@.len() + DATA_CHECKSUM_SIZE == packet_size_of(content),
    ensures
        read.0 == lat_of(content, data@),
        read.1 == lon_of(content, data@),
        read.2 == one_if(content.has(ContentFlags::LAT) && read.0.is_none()) + one_if(
            content.has(ContentFlags::LON) && read.1.is_none(),
        ),
{
    let mut addr: usize = 0;
    if content.contains(ContentFlags::UTC) {
        addr += 4;
    }
    if content.contains(ContentFlags::VALID) {
        addr += 1;
    }
    let mut lat: Option<u32> = None;
    let mut lon: Option<u32> = None;
    let mut invalid_fields: usize = 0;
    if content.contains(ContentFlags::LAT) {
        let bits = read_u32_at(data, addr);
        if bits & 0x7FFF_FFFF <= LATITUDE_LIMIT_BITS {
            lat = Some(bits);
        } else {
            invalid_fields += 1;
        }
        addr += 4;
    }
    if content.contains(ContentFlags::LON) {
        let bits = read_u32_at(data, addr);
        if bits & 0x7FFF_FFFF <= LONGITUDE_LIMIT_BITS {
            lon = Some(bits);
        } else {
            invalid_fields += 1;
        }
    }
    (lat, lon, invalid_fields)
}

/// Reads the fields of a packet from `data`, which is the packet's bytes
/// without its checksum. Returns the packet and the number of fields that are
/// recorded but not valid.
pub fn read_fields(content: ContentFlags, data: &[u8]) -> (read: (Packet, usize))
    requires
        data@.len() + DATA_CHECKSUM_SIZE == packet_size_of(content),
    ensures
        read.0 == packet_of(content, data@),
        read.1 == invalid_fields_of(content, data@),
{
    let (time, fix, invalid_early) = read_time_and_fix(content, data);
    let (lat, lon, invalid_position) = read_position(content, data);
    let mut packet = Packet::default();
    packet.time = time;
    packet.fix = fix;
    packet.lat = lat;
    packet.lon = lon;

    let mut addr: usize = 0;
    if content.contains(ContentFlags::UTC) {
        addr += 4;
    }
    if content.contains(ContentFlags::VALID) {
        addr += 1;
    }
    if content.contains(ContentFlags::LAT) {
        addr += 4;
    }
    if content.contains(ContentFlags::LON) {
        addr += 4;
    }
    if content.contains(ContentFlags::HEIGHT) {
        packet.height = Some(read_i16_at(data, addr));
        addr += 2;
    }
    if content.contains(ContentFlags::SPEED) {
        packet.speed = Some(read_i16_at(data, addr));
        addr += 2;
    }
    if content.contains(ContentFlags::TRK) {
        packet.heading = Some(read_u16_at(data, addr));
        addr += 2;
    }
    if content.contains(ContentFlags::HDOP) {
        packet.hdop = Some(read_u16_at(data, addr));
        addr += 2;
    }
    if content.contains(ContentFlags::NUM_SAT) {
        packet.num_sat = Some(data[addr]);
    }
    (packet, invalid_early + invalid_position)
}

/// Whether a sector's header is valid and counts at least one packet.
pub open spec fn sector_has_packets(sector: Seq<u8>) -> bool {
    match sector_header_of(sector.take(HEADER_SIZE as int)) {
        None => false,
        Some(header) => header.packet_count != 0,
    }
}

/// Whether one of the first `count` sectors of `data` has packets.
pub open spec fn image_has_packets(data: Seq<u8>, count: int) -> bool
    decreases count,
{
    if count <= 0 {
        false
    } else {
        image_has_packets(data, count - 1) || sector_has_packets(
            data.subrange((count - 1) * SECTOR_SIZE, count * SECTOR_SIZE),
        )
    }
}

/// Reads the packets out of a LOCUS flash image, and counts what it meets.
#[derive(Debug)]
pub struct Parser {
    /// The packets read so far, in the order of the image.
    pub packets: Vec<Packet>,
    /// The header of the sector whose packets are being read.
    pub active_sector: Option<SectorHeader>,
    pub stats: Stats,
}

impl Parser {
    /// Whether `self` is what `before` becomes by reading a stretch with this
    /// tally: the packets are added at the end, and each counter counts on.
    pub open spec fn took(self, before: Parser, tally: Tally) -> bool {
        &&& self.packets@ == before.packets@ + tally.packets
        &&& self.stats.invalid_sectors == counted(
            before.stats.invalid_sectors,
            tally.invalid_sectors,
        )
        &&& self.stats.empty_sectors == counted(before.stats.empty_sectors, tally.empty_sectors)
        &&& self.stats.invalid_packets == counted(
            before.stats.invalid_packets,
            tally.invalid_packets,
        )
        &&& self.stats.packets_parsed == counted(before.stats.packets_parsed, tally.packets_parsed)
        &&& self.stats.invalid_fields == counted(before.stats.invalid_fields, tally.invalid_fields)
    }

    /// Reading one stretch and then another is reading the two as one.
    pub proof fn lemma_took_plus(self, middle: Parser, before: Parser, first: Tally, second: Tally)
        requires
            middle.took(before, first),
            self.took(middle, second),
        ensures
            self.took(before, first.plus(second)),
    {
        assert(self.packets@ == before.packets@ + (first.packets + second.packets));
    }

    /// A parser that has read nothing.
    pub fn new() -> (parser: Self)
        ensures
            parser.packets@ == Seq::<Packet>::empty(),
            parser.active_sector.is_none(),
            parser.stats == (Stats {
                sector_count: 0,
                invalid_sectors: 0,
                empty_sectors: 0,
                invalid_packets: 0,
                packets_parsed: 0,
                invalid_fields: 0,
            }),
    {
        Self {
            packets: Vec::new(),
            active_sector: None,
            stats: Stats {
                sector_count: 0,
                empty_sectors: 0,
                invalid_sectors: 0,
                invalid_packets: 0,
                packets_parsed: 0,
                invalid_fields: 0,
            },
        }
    }

    /// Takes a packet that was read.
    pub fn on_packet(&mut self, packet: Packet)
        ensures
            final(self).packets@ == old(self).packets@.push(packet),
            final(self).active_sector == old(self).active_sector,
            final(self).stats == old(self).stats,
    {
        self.packets.push(packet);
    }

    /// Reads one packet of the active sector. `data` is the packet's bytes,
    /// its checksum included.
    pub fn parse_packet(&mut self, data: &[u8])
        requires
            old(self).active_sector.is_some(),
            old(self).active_sector.unwrap().wf(),
            data@.len() == old(self).active_sector.unwrap().packet_size,
        ensures
            final(self).took(
                *old(self),
                packet_tally(old(self).active_sector.unwrap().content_flags, data@),
            ),
            final(self).stats.sector_count == old(self).stats.sector_count,
            final(self).active_sector == old(self).active_sector,
    {
        let header = self.active_sector.unwrap();
        let content_flags = header.content_flags;

        let checksum = data[data.len() - 1];
        let payload = slice_subrange(data, 0, data.len() - 1);

        if u8_checksum_for(payload) != checksum {
            self.stats.invalid_packets = self.stats.invalid_packets.saturating_add(1);
            return ;
        }
        let (packet, invalid_fields) = read_fields(content_flags, payload);

        self.stats.packets_parsed = self.stats.packets_parsed.saturating_add(1);
        self.stats.invalid_fields = self.stats.invalid_fields.saturating_add(invalid_fields);
        self.on_packet(packet);
        assert(self.packets@ == old(self).packets@ + seq![packet]);
    }

    /// Reads one sector: its header, and the packets that the header counts.
    /// Packets that would reach past the end of the sector are not read.
    pub fn parse_sector(&mut self, sector: &[u8])
        requires
            sector@.len() >= HEADER_SIZE,
        ensures
            final(self).took(*old(self), sector_tally(sector@)),
            final(self).stats.sector_count == old(self).stats.sector_count,
            final(self).active_sector == if sector_has_packets(sector@) {
                None
            } else {
                old(self).active_sector
            },
    {
        let header = slice_subrange(sector, 0, HEADER_SIZE);
        let header = match SectorHeader::parse(header) {
            Some(header) => header,
            None => {
                self.stats.invalid_sectors = self.stats.invalid_sectors.saturating_add(1);
                return ;
            },
        };

        if header.packet_count == 0 {
            self.stats.empty_sectors = self.stats.empty_sectors.saturating_add(1);
            return ;
        }
        // This includes the checksum

        let packet_size = header.packet_size as usize;
        let room = (sector.len() - HEADER_SIZE) / packet_size;
        let packet_count = if header.packet_count as usize <= room {
            header.packet_count as usize
        } else {
            room
        };
        let ghost body = sector@.skip(HEADER_SIZE as int);
        assert(packet_count * packet_size <= sector@.len() - HEADER_SIZE) by (nonlinear_arith)
            requires
                packet_count <= room,
                room == (sector@.len() - HEADER_SIZE) / (packet_size as int),
                packet_size > 0,
                sector@.len() >= HEADER_SIZE,
        ;

        self.active_sector = Some(header);

        let mut packet_i: usize = 0;
        let mut start: usize = HEADER_SIZE;
        while packet_i < packet_count
            invariant
                packet_i <= packet_count,
                packet_size == header.packet_size,
                packet_size > 0,
                header.wf(),
                self.active_sector == Some(header),
                body == sector@.skip(HEADER_SIZE as int),
                sector@.len() >= HEADER_SIZE,
                sector@.len() <= usize::MAX,
                packet_count * packet_size <= sector@.len() - HEADER_SIZE,
                start == HEADER_SIZE + packet_i * packet_size,
                self.stats.sector_count == old(self).stats.sector_count,
                self.took(
                    *old(self),
                    packets_tally(
                        header.content_flags,
                        body,
                        packet_size as int,
                        packet_i as int,
                    ),
                ),
            decreases packet_count - packet_i,
        {
            assert((packet_i + 1) * packet_size == packet_i * packet_size + packet_size
                && (packet_i + 1) * packet_size <= packet_count * packet_size)
                by (nonlinear_arith)
                requires
                    packet_i < packet_count,
                    packet_size > 0,
            ;
            let end: usize = start + packet_size;
            let packet = slice_subrange(sector, start, end);
            assert(packet@ == body.subrange(
                (packet_i + 1 - 1) * packet_size,
                (packet_i + 1) * packet_size,
            ));
            let ghost middle = *self;
            self.parse_packet(packet);
            proof {
                self.lemma_took_plus(
                    middle,
                    *old(self),
                    packets_tally(
                        header.content_flags,
                        body,
                        packet_size as int,
                        packet_i as int,
                    ),
                    packet_tally(header.content_flags, packet@),
                );
            }
            start = end;
            packet_i += 1;
        }
        self.active_sector = None;
    }

    /// Reads an image: as many whole sectors as `data` holds, in order.
    // Not streaming: the whole image is handed over at once.
    pub fn parse(&mut self, data: &[u8])
        ensures
            final(self).took(*old(self), image_tally(data@, data@.len() as int / SECTOR_SIZE as int)),
            final(self).stats.sector_count == data@.len() / SECTOR_SIZE as nat,
            final(self).active_sector == if image_has_packets(
                data@,
                data@.len() as int / SECTOR_SIZE as int,
            ) {
                None
            } else {
                old(self).active_sector
            },
    {
        let sector_count = data.len() / SECTOR_SIZE;
        self.stats.sector_count = sector_count;
        let mut sector_i: usize = 0;
        while sector_i < sector_count
            invariant
                sector_i <= sector_count,
                sector_count == data@.len() / SECTOR_SIZE as nat,
                data@.len() <= usize::MAX,
                self.stats.sector_count == sector_count,
                self.took(*old(self), image_tally(data@, sector_i as int)),
                self.active_sector == if image_has_packets(data@, sector_i as int) {
                    None
                } else {
                    old(self).active_sector
                },
            decreases sector_count - sector_i,
        {
            let data_i = sector_i * SECTOR_SIZE;
            let sector = slice_subrange(data, data_i, data_i + SECTOR_SIZE);
            let ghost middle = *self;
            self.parse_sector(sector);
            proof {
                assert(sector@ == data@.subrange(
                    (sector_i + 1 - 1) * SECTOR_SIZE,
                    (sector_i + 1) * SECTOR_SIZE,
                ));
                self.lemma_took_plus(
                    middle,
                    *old(self),
                    image_tally(data@, sector_i as int),
                    sector_tally(sector@),
                );
            }
            sector_i += 1;
        }
    }
}

} // verus!
