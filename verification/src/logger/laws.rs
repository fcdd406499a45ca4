//! What holds of the decoder for every sector and every packet.

use super::packet::{fix_of, latitude_in_range, longitude_in_range};
use super::parser::{invalid_fields_of, one_if, packet_tally, Parser};
use super::Packet;
use super::parser::{last_written, packet_count_of, packet_of, packets_marked, shifts_to_clear};
use crate::cmd::xor_of;
use super::parser::{u32_at, offset_lat, offset_lon, offset_valid, ContentFlags};
use super::parser::{HEADER1_SIZE, HEADER2_SIZE, HEADER_SIZE};
use crate::utc_date_time::utc_of_unix;
use vstd::prelude::*;

verus! {

proof fn lemma_last_written_at(bitmap: Seq<u8>, upto: int, index: int)
    requires
        0 <= index < upto <= bitmap.len(),
        bitmap[index] != 0xFF,
        forall|k: int| index < k < upto ==> bitmap[k] == 0xFF,
    ensures
        last_written(bitmap, upto) == index,
    decreases upto,
{
    if index < upto - 1 {
        lemma_last_written_at(bitmap, upto - 1, index);
    }
}

proof fn lemma_last_written_nowhere(bitmap: Seq<u8>, upto: int)
    requires
        0 <= upto <= bitmap.len(),
        forall|k: int| 0 <= k < upto ==> bitmap[k] == 0xFF,
    ensures
        last_written(bitmap, upto) == -1,
    decreases upto,
{
    if upto > 0 {
        lemma_last_written_nowhere(bitmap, upto - 1);
    }
}

/// Sector packet count: where the last byte of the bitmap that is not `0xFF`
/// stands at `index` and holds `byte`, the sector has the packets that the
/// two stand for. This holds for each of the 48 places and each value of the
/// byte.
pub proof fn lemma_packet_count_of_written(header: Seq<u8>, index: int, byte: u8)
    requires
        header.len() >= HEADER_SIZE,
        0 <= index < HEADER2_SIZE,
        header[HEADER1_SIZE + index] == byte,
        byte != 0xFF,
        forall|k: int| HEADER1_SIZE + index < k < HEADER_SIZE ==> header[k] == 0xFF,
    ensures
        packet_count_of(header) == packets_marked(index, byte),
{
    let bitmap = header.subrange(HEADER1_SIZE as int, HEADER_SIZE as int);
    assert forall|k: int| index < k < HEADER2_SIZE implies bitmap[k] == 0xFF by {
        assert(bitmap[k] == header[HEADER1_SIZE + k]);
    }
    lemma_last_written_at(bitmap, HEADER2_SIZE as int, index);
}

/// Sector packet count: a bitmap of which every byte is `0xFF` stands for no
/// packet.
pub proof fn lemma_packet_count_of_erased(header: Seq<u8>)
    requires
        header.len() >= HEADER_SIZE,
        forall|k: int| HEADER1_SIZE <= k < HEADER_SIZE ==> header[k] == 0xFF,
    ensures
        packet_count_of(header) == 0,
{
    let bitmap = header.subrange(HEADER1_SIZE as int, HEADER_SIZE as int);
    assert forall|k: int| 0 <= k < HEADER2_SIZE implies bitmap[k] == 0xFF by {
        assert(bitmap[k] == header[HEADER1_SIZE + k]);
    }
    lemma_last_written_nowhere(bitmap, HEADER2_SIZE as int);
}

/// The number of places by which a byte has to be shifted to become zero is
/// the number of its bits up to the highest that is set.
pub proof fn lemma_shifts_to_clear(byte: u8)
    ensures
        shifts_to_clear(byte, 0) == if byte == 0 {
            0u32
        } else if byte < 2 {
            1u32
        } else if byte < 4 {
            2u32
        } else if byte < 8 {
            3u32
        } else if byte < 16 {
            4u32
        } else if byte < 32 {
            5u32
        } else if byte < 64 {
            6u32
        } else if byte < 128 {
            7u32
        } else {
            8u32
        },
{
    reveal_with_fuel(shifts_to_clear, 9);
    assert((byte >> 0u32) == 0 <==> byte == 0) by (bit_vector);
    assert((byte >> 1u32) == 0 <==> byte < 2) by (bit_vector);
    assert((byte >> 2u32) == 0 <==> byte < 4) by (bit_vector);
    assert((byte >> 3u32) == 0 <==> byte < 8) by (bit_vector);
    assert((byte >> 4u32) == 0 <==> byte < 16) by (bit_vector);
    assert((byte >> 5u32) == 0 <==> byte < 32) by (bit_vector);
    assert((byte >> 6u32) == 0 <==> byte < 64) by (bit_vector);
    assert((byte >> 7u32) == 0 <==> byte < 128) by (bit_vector);
}

/// Sector packet count, by the value of the byte: every byte before the last
/// written one stands for eight packets, and the last written one for as
/// many packets as it has bits cleared from the top.
pub proof fn lemma_packets_marked(index: int, byte: u8)
    ensures
        packets_marked(index, byte) == index * 8 + if byte == 0 {
            8int
        } else if byte < 2 {
            7int
        } else if byte < 4 {
            6int
        } else if byte < 8 {
            5int
        } else if byte < 16 {
            4int
        } else if byte < 32 {
            3int
        } else if byte < 64 {
            2int
        } else if byte < 128 {
            1int
        } else {
            0int
        },
{
    lemma_shifts_to_clear(byte);
}

/// Field invariants: a latitude beyond 90 degrees and a longitude beyond 180
/// degrees are dropped, and so are a time that the calendar does not reach
/// and a quality byte that means nothing; a field that is recorded and valid
/// is kept.
pub proof fn lemma_invalid_fields_are_dropped(content: ContentFlags, data: Seq<u8>)
    ensures
        packet_of(content, data).lat.is_some() <==> content.has(ContentFlags::LAT)
            && latitude_in_range(u32_at(data, offset_lat(content))),
        packet_of(content, data).lon.is_some() <==> content.has(ContentFlags::LON)
            && longitude_in_range(u32_at(data, offset_lon(content))),
        packet_of(content, data).time.is_some() <==> content.has(ContentFlags::UTC) && utc_of_unix(
            u32_at(data, 0) as i64,
        ).is_some(),
        packet_of(content, data).fix.is_some() <==> content.has(ContentFlags::VALID) && fix_of(
            data[offset_valid(content)],
        ).is_some(),
{
}

/// Field invariants: every field that is recorded and not valid counts once
/// among the invalid fields of its packet, whatever the other fields hold.
pub proof fn lemma_invalid_fields_counted(content: ContentFlags, data: Seq<u8>)
    ensures
        invalid_fields_of(content, data) == one_if(
            content.has(ContentFlags::UTC) && utc_of_unix(u32_at(data, 0) as i64).is_none(),
        ) + one_if(
            content.has(ContentFlags::VALID) && fix_of(data[offset_valid(content)]).is_none(),
        ) + one_if(
            content.has(ContentFlags::LAT) && !latitude_in_range(
                u32_at(data, offset_lat(content)),
            ),
        ) + one_if(
            content.has(ContentFlags::LON) && !longitude_in_range(
                u32_at(data, offset_lon(content)),
            ),
        ),
        invalid_fields_of(content, data) <= 4,
{
}

/// Field invariants: a packet whose checksum is right is handed on whether
/// its fields are valid or not. Where the counters have room, the count of
/// packets grows by one and the count of invalid fields by the number of
/// fields of the packet that are recorded and not valid; nothing else is
/// counted.
pub proof fn lemma_packet_read(
    after: Parser,
    before: Parser,
    content: ContentFlags,
    packet: Seq<u8>,
)
    requires
        after.took(before, packet_tally(content, packet)),
        xor_of(packet.drop_last()) == packet.last(),
        before.stats.packets_parsed < usize::MAX,
        before.stats.invalid_fields + 4 <= usize::MAX,
    ensures
        after.packets@ == before.packets@.push(packet_of(content, packet.drop_last())),
        after.stats.packets_parsed == before.stats.packets_parsed + 1,
        after.stats.invalid_fields == before.stats.invalid_fields + invalid_fields_of(
            content,
            packet.drop_last(),
        ),
        after.stats.invalid_packets == before.stats.invalid_packets,
        after.stats.invalid_sectors == before.stats.invalid_sectors,
        after.stats.empty_sectors == before.stats.empty_sectors,
{
    lemma_invalid_fields_counted(content, packet.drop_last());
    let tally = packet_tally(content, packet);
    assert(tally.packets == seq![packet_of(content, packet.drop_last())]);
    assert(tally.packets_parsed == 1);
    assert(tally.invalid_fields == invalid_fields_of(content, packet.drop_last()));
    assert(before.packets@ + tally.packets == before.packets@.push(
        packet_of(content, packet.drop_last()),
    ));
}

/// A packet whose checksum is wrong is not handed on and not read. Where the
/// counter has room, the count of invalid packets grows by one; nothing else
/// is counted.
pub proof fn lemma_packet_rejected(
    after: Parser,
    before: Parser,
    content: ContentFlags,
    packet: Seq<u8>,
)
    requires
        after.took(before, packet_tally(content, packet)),
        xor_of(packet.drop_last()) != packet.last(),
        before.stats.invalid_packets < usize::MAX,
    ensures
        after.packets@ == before.packets@,
        after.stats.invalid_packets == before.stats.invalid_packets + 1,
        after.stats.packets_parsed == before.stats.packets_parsed,
        after.stats.invalid_fields == before.stats.invalid_fields,
        after.stats.invalid_sectors == before.stats.invalid_sectors,
        after.stats.empty_sectors == before.stats.empty_sectors,
{
    let tally = packet_tally(content, packet);
    assert(tally.packets == Seq::<Packet>::empty());
    assert(before.packets@ + tally.packets == before.packets@);
}

} // verus!
