use crate::cmd::parse::contents_of;
use crate::cmd::{hex_value, xor_of};
use crate::logger::parser::{i16_at, u32_at, read_i16_at, read_u32_at, u8_checksum_for};
use vstd::prelude::*;

verus! {

// Only "basic" mode is handled, in which every point takes 16 bytes.
/// The length of a point.
pub const POINT_SIZE: usize = 16;

/// The number of hexadecimal chunks that make up a point.
pub const CHUNKS_PER_POINT: usize = 4;

/// The length of a chunk: eight hexadecimal digits, which stand for four bytes.
pub const CHUNK_SIZE: usize = 8;

/// One position of the log in basic mode.
#[derive(Debug, Clone, Copy, PartialEq, Eq, Structural, PartialOrd, Ord, Hash)]
pub struct LoggedPoint {
    /// Seconds since the start of 1970.
    pub timestamp: u32,
    /// The quality byte of the fix.
    pub fix: u8,
    /// Degrees north, as the bits of a binary32 number.
    pub latitude: u32,
    /// Degrees east, as the bits of a binary32 number.
    pub longitude: u32,
    pub height: i16,
    /// The XOR of all 16 bytes of the point, which is zero where the point's
    /// checksum is right.
    pub temp_checksum: u8,
}

/// Why the chunks of a data frame make no points.
#[derive(Debug, Clone, Copy, PartialEq, Eq, Structural, PartialOrd, Ord, Hash)]
pub enum Error {
    /// The fields are chunks of 8 bytes of ascii hex data. Only basic mode is
    /// handled, where each point is 16 bytes. As such, the number of chunks
    /// must be divisible by 4.
    InvalidFieldCount,
    /// A chunk must be 8 bytes of ascii hex
    InvalidFieldLength,
    WrongChecksum,
    HexDecode,
}

/// The point that 16 bytes hold.
pub open spec fn point_of(bytes: Seq<u8>) -> LoggedPoint {
    LoggedPoint {
        timestamp: u32_at(bytes, 0),
        fix: bytes[4],
        latitude: u32_at(bytes, 5),
        longitude: u32_at(bytes, 9),
        height: i16_at(bytes, 13),
        temp_checksum: xor_of(bytes),
    }
}

/// A point's checksum is right, which is to say that its last byte is the
/// XOR of the 15 bytes before it, exactly if its 16 bytes XOR to zero.
pub proof fn lemma_point_checksum(bytes: Seq<u8>)
    requires
        bytes.len() == POINT_SIZE,
    ensures
        (point_of(bytes).temp_checksum == 0) <==> (xor_of(bytes.take(15)) == bytes[15]),
{
    let rest = xor_of(bytes.take(15));
    let last = bytes[15];
    assert((rest ^ last) == 0 <==> rest == last) by (bit_vector);
}

impl LoggedPoint {
    /// Whether the point's checksum is right: its last byte is the XOR of the
    /// bytes before it.
    pub fn checksum_is_valid(&self) -> (valid: bool)
        ensures
            valid == (self.temp_checksum == 0),
    {
        self.temp_checksum == 0
    }
}

/// Reads one point. A wrong checksum does not fail: it shows in
/// `temp_checksum`.
pub fn parse_point(bytes: &[u8; 16]) -> (parsed: Result<LoggedPoint, Error>)
    ensures
        parsed == Ok::<LoggedPoint, Error>(point_of(bytes@)),
{
    Ok(point_from(bytes.as_slice()))
}

/// The byte that the two hexadecimal digits at `2 * index` in `chunk` stand
/// for, if both are digits.
pub open spec fn hex_byte(chunk: Seq<u8>, index: int) -> Option<u8> {
    match (hex_value(chunk[2 * index]), hex_value(chunk[2 * index + 1])) {
        (Some(high), Some(low)) => Some((16 * high + low) as u8),
        _ => None,
    }
}

/// The four bytes that a chunk of eight hexadecimal digits stands for, or
/// `None` where the chunk has another length or holds something else.
pub open spec fn hex_chunk(chunk: Seq<u8>) -> Option<Seq<u8>> {
    if chunk.len() == CHUNK_SIZE && hex_byte(chunk, 0).is_some() && hex_byte(chunk, 1).is_some()
        && hex_byte(chunk, 2).is_some() && hex_byte(chunk, 3).is_some() {
        Some(
            seq![
                hex_byte(chunk, 0).unwrap(),
                hex_byte(chunk, 1).unwrap(),
                hex_byte(chunk, 2).unwrap(),
                hex_byte(chunk, 3).unwrap(),
            ],
        )
    } else {
        None
    }
}

/// Calls `hex::decode_to_slice` with room for four bytes. It takes digits of
/// either case, and fails where the text is not eight bytes long or one of
/// them is no hexadecimal digit.
#[verifier::external_body]
fn decode_chunk(chunk: &[u8]) -> (bytes: Option<[u8; 4]>)
    ensures
        match bytes {
            Some(bytes) => hex_chunk(chunk@) == Some(bytes@),
            None => hex_chunk(chunk@).is_none(),
        },
{
    let mut out = [0_u8; 4];
    match hex::decode_to_slice(chunk, &mut out) {
        Ok(()) => Some(out),
        Err(_) => None,
    }
}

/// What is wrong with a chunk, if anything: its length first, then its
/// digits.
pub open spec fn chunk_error(chunk: Seq<u8>) -> Option<Error> {
    if chunk.len() != CHUNK_SIZE {
        Some(Error::InvalidFieldLength)
    } else if hex_chunk(chunk).is_none() {
        Some(Error::HexDecode)
    } else {
        None
    }
}

/// The index of the first chunk at or after `from` with something wrong, or
/// the number of chunks where there is none.
pub open spec fn first_bad_chunk(chunks: Seq<Seq<u8>>, from: int) -> int
    decreases chunks.len() - from,
{
    if from >= chunks.len() {
        chunks.len() as int
    } else if chunk_error(chunks[from]).is_some() {
        from
    } else {
        first_bad_chunk(chunks, from + 1)
    }
}

/// The bytes that the `count` chunks from `base` on stand for.
pub open spec fn chunks_bytes(chunks: Seq<Seq<u8>>, base: int, count: int) -> Seq<u8>
    decreases count,
{
    if count <= 0 {
        Seq::empty()
    } else {
        chunks_bytes(chunks, base, count - 1) + hex_chunk(chunks[base + count - 1]).unwrap()
    }
}

/// The 16 bytes that the four chunks of a group stand for.
pub open spec fn group_bytes(chunks: Seq<Seq<u8>>, group: int) -> Seq<u8> {
    chunks_bytes(chunks, CHUNKS_PER_POINT * group, CHUNKS_PER_POINT as int)
}

/// The points of the first `count` groups of `chunks`.
pub open spec fn points_of(chunks: Seq<Seq<u8>>, count: int) -> Seq<LoggedPoint> {
    Seq::new(count as nat, |group: int| point_of(group_bytes(chunks, group)))
}

/// What the chunks of a data frame hold: a point for every four chunks, or
/// the first thing found wrong. The number of chunks is looked at first, then
/// the chunks in order.
pub open spec fn data_points(chunks: Seq<Seq<u8>>) -> Result<Seq<LoggedPoint>, Error> {
    if chunks.len() % CHUNKS_PER_POINT as nat != 0 {
        Err(Error::InvalidFieldCount)
    } else if first_bad_chunk(chunks, 0) < chunks.len() {
        Err(chunk_error(chunks[first_bad_chunk(chunks, 0)]).unwrap())
    } else {
        Ok(points_of(chunks, chunks.len() as int / CHUNKS_PER_POINT as int))
    }
}

/// Those of `points` whose checksum is right.
pub open spec fn sound_points(points: Seq<LoggedPoint>) -> Seq<LoggedPoint> {
    points.filter(|point: LoggedPoint| point.temp_checksum == 0)
}

/// The points as they are handed on: all of them, or only those whose
/// checksum is right.
pub open spec fn points_kept(points: Seq<LoggedPoint>, keep_mismatched: bool) -> Seq<LoggedPoint> {
    if keep_mismatched {
        points
    } else {
        sound_points(points)
    }
}

/// How many groups of four chunks are read from a data frame: none where the
/// number of chunks is wrong, else those that lie wholly before the first
/// chunk with something wrong.
pub open spec fn groups_read(chunks: Seq<Seq<u8>>) -> int {
    if chunks.len() % CHUNKS_PER_POINT as nat != 0 {
        0
    } else {
        first_bad_chunk(chunks, 0) / CHUNKS_PER_POINT as int
    }
}

/// The points that are read from a data frame: all of them where nothing is
/// wrong with the frame, else those before the group with the first chunk
/// that is wrong.
pub open spec fn points_read(chunks: Seq<Seq<u8>>) -> Seq<LoggedPoint> {
    points_of(chunks, groups_read(chunks))
}

/// What is wrong with a data frame, if anything.
pub open spec fn failure_of(chunks: Seq<Seq<u8>>) -> Option<Error> {
    match data_points(chunks) {
        Ok(_) => None,
        Err(err) => Some(err),
    }
}

proof fn lemma_first_bad_chunk_bounds(chunks: Seq<Seq<u8>>, from: int)
    requires
        0 <= from <= chunks.len(),
    ensures
        from <= first_bad_chunk(chunks, from) <= chunks.len(),
    decreases chunks.len() - from,
{
    if from < chunks.len() && chunk_error(chunks[from]).is_none() {
        lemma_first_bad_chunk_bounds(chunks, from + 1);
    }
}

/// Where nothing is wrong with a data frame, the points read from it are all
/// its points.
pub proof fn lemma_points_read_all(chunks: Seq<Seq<u8>>)
    requires
        data_points(chunks).is_ok(),
    ensures
        points_read(chunks) == data_points(chunks).unwrap(),
{
    lemma_first_bad_chunk_bounds(chunks, 0);
}

/// The points of one data frame.
#[derive(Debug, PartialEq, Eq)]
pub struct DataPoints {
    /// The points that were read, in the order of the frame.
    pub points: Vec<LoggedPoint>,
    /// How many of the points that were read have a wrong checksum.
    pub mismatches: usize,
    /// What is wrong with the frame, if anything. The points of the groups
    /// before the one that is wrong have been read all the same.
    pub failure: Option<Error>,
}

/// Reads one chunk.
fn read_chunk(chunk: &[u8]) -> (read: Result<[u8; 4], Error>)
    ensures
        match read {
            Ok(bytes) => chunk_error(chunk@).is_none() && hex_chunk(chunk@) == Some(bytes@),
            Err(err) => chunk_error(chunk@) == Some(err),
        },
{
    if chunk.len() != CHUNK_SIZE {
        return Err(Error::InvalidFieldLength);
    }
    match decode_chunk(chunk) {
        Some(bytes) => Ok(bytes),
        None => Err(Error::HexDecode),
    }
}

/// Reads the four chunks of a group into the 16 bytes of a point.
fn read_group(fields: &[Vec<u8>], group: usize) -> (read: Result<Vec<u8>, Error>)
    requires
        4 * group + 4 <= fields@.len(),
    ensures
        match read {
            Ok(data) => {
                &&& first_bad_chunk(contents_of(fields@), 4 * group) == first_bad_chunk(
                    contents_of(fields@),
                    4 * group + 4,
                )
                &&& data@ == group_bytes(contents_of(fields@), group as int)
                &&& data@.len() == POINT_SIZE
            },
            Err(err) => {
                &&& 4 * group <= first_bad_chunk(contents_of(fields@), 4 * group) < 4 * group + 4
                &&& chunk_error(
                    contents_of(fields@)[first_bad_chunk(contents_of(fields@), 4 * group)],
                ) == Some(err)
            },
        },
{
    let ghost chunks = contents_of(fields@);
    let count: usize = fields.len();
    assert(4 * group + 4 <= count);
    let base: usize = group * CHUNKS_PER_POINT;
    let mut data: Vec<u8> = Vec::new();
    let mut n: usize = 0;
    while n < CHUNKS_PER_POINT
        invariant
            chunks == contents_of(fields@),
            base == 4 * group,
            base + 4 <= fields@.len(),
            n <= CHUNKS_PER_POINT,
            first_bad_chunk(chunks, base as int) == first_bad_chunk(chunks, base + n),
            data@ == chunks_bytes(chunks, base as int, n as int),
            data@.len() == 4 * n,
        decreases CHUNKS_PER_POINT - n,
    {
        let chunk = fields[base + n].as_slice();
        assert(chunk@ == chunks[base + n]);
        let bytes = match read_chunk(chunk) {
            Ok(bytes) => bytes,
            Err(err) => {
                assert(first_bad_chunk(chunks, base + n) == base + n);
                return Err(err);
            },
        };
        assert(first_bad_chunk(chunks, base + n) == first_bad_chunk(chunks, base + n + 1));
        assert(chunks_bytes(chunks, base as int, n + 1) == chunks_bytes(
            chunks,
            base as int,
            n as int,
        ) + bytes@);
        append_chunk(&mut data, &bytes);
        n += 1;
    }
    Ok(data)
}

/// Appends the four bytes of a chunk to `data`.
fn append_chunk(data: &mut Vec<u8>, bytes: &[u8; 4])
    ensures
        final(data)@ == old(data)@ + bytes@,
{
    data.push(bytes[0]);
    data.push(bytes[1]);
    data.push(bytes[2]);
    data.push(bytes[3]);
    assert(data@ == old(data)@ + bytes@);
}

/// Reads the 16 bytes of a point.
fn point_from(bytes: &[u8]) -> (point: LoggedPoint)
    requires
        bytes@.len() == POINT_SIZE,
    ensures
        point == point_of(bytes@),
{
    let timestamp = read_u32_at(bytes, 0);
    let fix = bytes[4];
    let latitude = read_u32_at(bytes, 5);
    let longitude = read_u32_at(bytes, 9);
    let height = read_i16_at(bytes, 13);
    let checksum = u8_checksum_for(bytes);

    LoggedPoint { timestamp, fix, latitude, longitude, height, temp_checksum: checksum }
}

/// Reads the chunks of a data frame. Every four chunks make a point. Points
/// with a wrong checksum are counted; they are handed on only where
/// `keep_mismatched` is set. Where something is wrong with the frame, the
/// points of the groups before it are read all the same.
pub fn parse_data_fields(fields: &[Vec<u8>], keep_mismatched: bool) -> (data: DataPoints)
    ensures
        data.failure == failure_of(contents_of(fields@)),
        data.points@ == points_kept(points_read(contents_of(fields@)), keep_mismatched),
        data.mismatches == points_read(contents_of(fields@)).len() - sound_points(
            points_read(contents_of(fields@)),
        ).len(),
{
    let ghost chunks = contents_of(fields@);
    let mut points: Vec<LoggedPoint> = Vec::new();
    let mut mismatches: usize = 0;
    proof {
        reveal(Seq::filter);
        assert(points_of(chunks, 0) == Seq::<LoggedPoint>::empty());
        assert(sound_points(points_of(chunks, 0)) == Seq::<LoggedPoint>::empty());
    }
    if fields.len() % CHUNKS_PER_POINT != 0 {
        return DataPoints { points, mismatches, failure: Some(Error::InvalidFieldCount) };
    }
    let groups: usize = fields.len() / CHUNKS_PER_POINT;
    let mut group: usize = 0;
    while group < groups
        invariant
            chunks == contents_of(fields@),
            fields@.len() == groups * 4,
            group <= groups,
            first_bad_chunk(chunks, 0) == first_bad_chunk(chunks, 4 * group),
            points@ == points_kept(points_of(chunks, group as int), keep_mismatched),
            mismatches == group - sound_points(points_of(chunks, group as int)).len(),
            mismatches <= group,
        decreases groups - group,
    {
        let data = match read_group(fields, group) {
            Ok(data) => data,
            Err(err) => {
                assert(groups_read(chunks) == group);
                return DataPoints { points, mismatches, failure: Some(err) };
            },
        };
        let point = point_from(data.as_slice());
        proof {
            reveal(Seq::filter);
            let longer = points_of(chunks, group + 1);
            assert(longer.drop_last() == points_of(chunks, group as int));
            assert(longer.last() == point);
            assert(sound_points(longer) == if point.temp_checksum == 0 {
                sound_points(longer.drop_last()).push(point)
            } else {
                sound_points(longer.drop_last())
            });
        }
        let valid = point.checksum_is_valid();
        if !valid {
            mismatches += 1;
        }
        if valid || keep_mismatched {
            points.push(point);
        }
        group += 1;
    }
    assert(first_bad_chunk(chunks, 0) == chunks.len());
    assert(groups_read(chunks) == groups);
    DataPoints { points, mismatches, failure: None }
}

} // verus!
