//! What holds between writing a frame and reading it back.

use super::parse::{decode, fields_end, fields_of, name_end, Error, Frame};
use super::serialize::{encode, fields_bytes, line_of};
use super::{hex_pair_value, lemma_hex_pair_reads_back, xor_of};
use super::{CARRIAGE_RETURN, CHECKSUM_MARK, FIELD_MARK, LINE_FEED, PREFIX};
use vstd::prelude::*;

verus! {

/// Whether `bytes` can stand in a name or a field: it holds neither `,` nor
/// `*`.
pub open spec fn plain(bytes: Seq<u8>) -> bool {
    forall|i: int| 0 <= i < bytes.len() ==> bytes[i] != FIELD_MARK && bytes[i] != CHECKSUM_MARK
}

/// Whether every field of `fields` is plain.
pub open spec fn all_plain(fields: Seq<Seq<u8>>) -> bool {
    forall|i: int| 0 <= i < fields.len() ==> plain(#[trigger] fields[i])
}

proof fn lemma_name_end_at(frame: Seq<u8>, from: int, stop: int)
    requires
        0 <= from <= stop <= frame.len(),
        forall|k: int| from <= k < stop ==> frame[k] != FIELD_MARK && frame[k] != CHECKSUM_MARK,
        stop < frame.len() ==> frame[stop] == FIELD_MARK || frame[stop] == CHECKSUM_MARK,
    ensures
        name_end(frame, from) == stop,
    decreases stop - from,
{
    if from < stop {
        lemma_name_end_at(frame, from + 1, stop);
    }
}

proof fn lemma_fields_end_at(frame: Seq<u8>, from: int, stop: int)
    requires
        0 <= from <= stop <= frame.len(),
        forall|k: int| from <= k < stop ==> frame[k] != CHECKSUM_MARK,
        stop < frame.len() ==> frame[stop] == CHECKSUM_MARK,
    ensures
        fields_end(frame, from) == stop,
    decreases stop - from,
{
    if from < stop {
        lemma_fields_end_at(frame, from + 1, stop);
    }
}

proof fn lemma_fields_bytes_shape(fields: Seq<Seq<u8>>)
    requires
        all_plain(fields),
    ensures
        forall|k: int| 0 <= k < fields_bytes(fields).len() ==> fields_bytes(fields)[k]
            != CHECKSUM_MARK,
        fields.len() > 0 ==> fields_bytes(fields).len() > 0 && fields_bytes(fields)[0]
            == FIELD_MARK,
        fields.len() == 0 ==> fields_bytes(fields).len() == 0,
    decreases fields.len(),
{
    if fields.len() > 0 {
        lemma_fields_bytes_shape(fields.drop_last());
    }
}

proof fn lemma_fields_of_field(head: Seq<u8>, field: Seq<u8>)
    requires
        plain(field),
    ensures
        fields_of(head + seq![FIELD_MARK] + field) == fields_of(head).push(field),
    decreases field.len(),
{
    let bytes = head + seq![FIELD_MARK] + field;
    if field.len() == 0 {
        assert(bytes.drop_last() == head);
        assert(field == Seq::<u8>::empty());
    } else {
        let shorter = field.drop_last();
        lemma_fields_of_field(head, shorter);
        assert(bytes.drop_last() == head + seq![FIELD_MARK] + shorter);
        assert(shorter.push(field.last()) == field);
    }
}

/// Splitting the bytes that fields add to a line gives the fields back.
pub proof fn lemma_fields_of_fields_bytes(fields: Seq<Seq<u8>>)
    requires
        all_plain(fields),
    ensures
        fields_of(fields_bytes(fields)) == fields,
    decreases fields.len(),
{
    if fields.len() > 0 {
        lemma_fields_of_fields_bytes(fields.drop_last());
        lemma_fields_of_field(fields_bytes(fields.drop_last()), fields.last());
    }
}

/// Round-trip framing: a frame written for a name that is not empty and for
/// fields, all of them free of `,` and `*`, reads back as that name and those
/// fields, and the checksum it carries is the one that reading computes.
pub proof fn lemma_decode_encode(name: Seq<u8>, fields: Seq<Seq<u8>>)
    requires
        name.len() > 0,
        plain(name),
        all_plain(fields),
    ensures
        decode(encode(name, fields)) == Ok::<Frame, Error>((name, fields)),
{
    let line = line_of(name, fields);
    let frame = encode(name, fields);
    let name_stop = 1 + name.len() as int;
    let mark = 1 + line.len() as int;
    lemma_fields_bytes_shape(fields);
    lemma_hex_pair_reads_back(xor_of(line));
    assert(forall|k: int| name.len() <= k < line.len() ==> line[k] == fields_bytes(fields)[k
        - name.len()]);
    lemma_name_end_at(frame, 1, name_stop);
    lemma_fields_end_at(frame, name_stop, mark);
    assert(frame.subrange(1, mark) == line);
    assert(frame.subrange(1, name_stop) == name);
    assert(frame.subrange(name_stop, mark) == fields_bytes(fields));
    lemma_fields_of_fields_bytes(fields);
}

proof fn lemma_name_end_is_first(frame: Seq<u8>, from: int)
    requires
        0 <= from <= frame.len(),
    ensures
        from <= name_end(frame, from) <= frame.len(),
        forall|k: int|
            from <= k < name_end(frame, from) ==> frame[k] != FIELD_MARK && frame[k]
                != CHECKSUM_MARK,
        name_end(frame, from) < frame.len() ==> frame[name_end(frame, from)] == FIELD_MARK
            || frame[name_end(frame, from)] == CHECKSUM_MARK,
    decreases frame.len() - from,
{
    if from < frame.len() && frame[from] != FIELD_MARK && frame[from] != CHECKSUM_MARK {
        lemma_name_end_is_first(frame, from + 1);
    }
}

proof fn lemma_fields_end_is_first(frame: Seq<u8>, from: int)
    requires
        0 <= from <= frame.len(),
    ensures
        from <= fields_end(frame, from) <= frame.len(),
        forall|k: int| from <= k < fields_end(frame, from) ==> frame[k] != CHECKSUM_MARK,
        fields_end(frame, from) < frame.len() ==> frame[fields_end(frame, from)]
            == CHECKSUM_MARK,
    decreases frame.len() - from,
{
    if from < frame.len() && frame[from] != CHECKSUM_MARK {
        lemma_fields_end_is_first(frame, from + 1);
    }
}

/// Bytes that are empty or start with `,`, and hold no `*`, are what their
/// fields add to a line; and the fields are plain.
proof fn lemma_fields_bytes_of_fields(bytes: Seq<u8>)
    requires
        bytes.len() > 0 ==> bytes[0] == FIELD_MARK,
        forall|k: int| 0 <= k < bytes.len() ==> bytes[k] != CHECKSUM_MARK,
    ensures
        fields_bytes(fields_of(bytes)) == bytes,
        all_plain(fields_of(bytes)),
        bytes.len() > 0 ==> fields_of(bytes).len() > 0,
    decreases bytes.len(),
{
    if bytes.len() > 0 {
        let shorter = bytes.drop_last();
        let before = fields_of(shorter);
        assert(shorter.len() > 0 ==> shorter[0] == bytes[0]);
        lemma_fields_bytes_of_fields(shorter);
        let byte = bytes.last();
        if byte == FIELD_MARK {
            let fields = before.push(Seq::<u8>::empty());
            assert(fields_of(bytes) == fields);
            assert(fields.drop_last() == before);
            assert(fields_bytes(fields) == shorter + seq![FIELD_MARK] + Seq::<u8>::empty());
            assert(shorter + seq![FIELD_MARK] + Seq::<u8>::empty() == bytes);
            assert forall|i: int| 0 <= i < fields.len() implies plain(#[trigger] fields[i]) by {
                if i < before.len() {
                    assert(fields[i] == before[i]);
                    assert(plain(before[i]));
                }
            }
        } else {
            // A byte that opens no field belongs to the field opened last.
            assert(shorter.len() > 0);
            assert(before.len() > 0);
            let grown = before.last().push(byte);
            let fields = before.drop_last().push(grown);
            assert(fields_of(bytes) == fields);
            assert(fields.drop_last() == before.drop_last());
            assert(fields.last() == grown);
            assert(fields_bytes(before) == fields_bytes(before.drop_last()) + seq![FIELD_MARK]
                + before.last());
            assert(fields_bytes(fields) == fields_bytes(before.drop_last()) + seq![FIELD_MARK]
                + grown);
            assert(fields_bytes(before.drop_last()) + seq![FIELD_MARK] + grown == (fields_bytes(
                before.drop_last(),
            ) + seq![FIELD_MARK] + before.last()).push(byte));
            assert(shorter.push(byte) == bytes);
            assert(plain(before.last()));
            assert(plain(grown)) by {
                assert forall|i: int| 0 <= i < grown.len() implies grown[i] != FIELD_MARK
                    && grown[i] != CHECKSUM_MARK by {
                    if i < before.last().len() {
                        assert(grown[i] == before.last()[i]);
                    }
                }
            }
            assert forall|i: int| 0 <= i < fields.len() implies plain(#[trigger] fields[i]) by {
                if i < before.len() - 1 {
                    assert(fields[i] == before[i]);
                    assert(plain(before[i]));
                }
            }
        }
    }
}

/// What reads as a frame has the form of one. Its name is not empty, and
/// neither the name nor a field holds `,` or `*`. The frame is `$`, the line
/// of that name and those fields, `*`, two hexadecimal digits, `\r` and
/// `\n`, and nothing else; and the two digits stand for the XOR of the line.
pub proof fn lemma_decode_shape(frame: Seq<u8>)
    requires
        decode(frame).is_ok(),
    ensures
        ({
            let (name, fields) = decode(frame).unwrap();
            let line = line_of(name, fields);
            let mark = 1 + line.len() as int;
            &&& name.len() > 0
            &&& plain(name)
            &&& all_plain(fields)
            &&& frame == seq![PREFIX] + line + seq![
                CHECKSUM_MARK,
                frame[mark + 1],
                frame[mark + 2],
                CARRIAGE_RETURN,
                LINE_FEED,
            ]
            &&& hex_pair_value(frame[mark + 1], frame[mark + 2]) == Some(xor_of(line))
        }),
{
    let (name, fields) = decode(frame).unwrap();
    let name_stop = name_end(frame, 1);
    let mark = fields_end(frame, name_stop);
    lemma_name_end_is_first(frame, 1);
    lemma_fields_end_is_first(frame, name_stop);
    assert(frame[0] == PREFIX);
    assert(1 < name_stop < frame.len());
    assert(name_stop <= mark < frame.len());
    assert(frame.len() == mark + 5);
    assert(name == frame.subrange(1, name_stop));
    assert(fields == fields_of(frame.subrange(name_stop, mark)));
    let tail = frame.subrange(name_stop, mark);
    assert(tail.len() > 0 ==> tail[0] == frame[name_stop]);
    assert forall|k: int| 0 <= k < tail.len() implies tail[k] != CHECKSUM_MARK by {
        assert(tail[k] == frame[name_stop + k]);
    }
    lemma_fields_bytes_of_fields(tail);
    let line = line_of(name, fields);
    assert(line == frame.subrange(1, name_stop) + tail);
    assert(line == frame.subrange(1, mark));
    assert(frame == seq![PREFIX] + line + seq![
        CHECKSUM_MARK,
        frame[mark + 1],
        frame[mark + 2],
        CARRIAGE_RETURN,
        LINE_FEED,
    ]);
}

/// How many of `bytes` are `,`.
pub open spec fn commas(bytes: Seq<u8>) -> nat {
    bytes.filter(|byte: u8| byte == FIELD_MARK).len()
}

proof fn lemma_no_commas(bytes: Seq<u8>)
    requires
        forall|k: int| 0 <= k < bytes.len() ==> bytes[k] != FIELD_MARK,
    ensures
        commas(bytes) == 0,
    decreases bytes.len(),
{
    reveal(Seq::filter);
    if bytes.len() > 0 {
        lemma_no_commas(bytes.drop_last());
    }
}

proof fn lemma_commas_of_both(first: Seq<u8>, second: Seq<u8>)
    ensures
        commas(first + second) == commas(first) + commas(second),
{
    Seq::filter_distributes_over_add(first, second, |byte: u8| byte == FIELD_MARK);
}

proof fn lemma_commas_of_fields_bytes(fields: Seq<Seq<u8>>)
    requires
        all_plain(fields),
    ensures
        commas(fields_bytes(fields)) == fields.len(),
    decreases fields.len(),
{
    reveal(Seq::filter);
    if fields.len() == 0 {
        assert(fields_bytes(fields) == Seq::<u8>::empty());
    } else {
        let head = fields_bytes(fields.drop_last());
        lemma_commas_of_fields_bytes(fields.drop_last());
        assert(plain(fields.last()));
        lemma_no_commas(fields.last());
        lemma_commas_of_both(head + seq![FIELD_MARK], fields.last());
        lemma_commas_of_both(head, seq![FIELD_MARK]);
        assert(seq![FIELD_MARK].drop_last() == Seq::<u8>::empty());
        assert(commas(seq![FIELD_MARK]) == 1);
    }
}

/// What reads as a frame has as many fields as it holds commas.
pub proof fn lemma_field_count(frame: Seq<u8>)
    requires
        decode(frame).is_ok(),
    ensures
        decode(frame).unwrap().1.len() == commas(frame),
{
    let (name, fields) = decode(frame).unwrap();
    let line = line_of(name, fields);
    let mark = 1 + line.len() as int;
    lemma_decode_shape(frame);
    let end = seq![
        CHECKSUM_MARK,
        frame[mark + 1],
        frame[mark + 2],
        CARRIAGE_RETURN,
        LINE_FEED,
    ];
    assert(frame == seq![PREFIX] + line + end);
    lemma_commas_of_both(seq![PREFIX] + line, end);
    lemma_commas_of_both(seq![PREFIX], line);
    lemma_commas_of_both(name, fields_bytes(fields));
    lemma_no_commas(seq![PREFIX]);
    lemma_no_commas(end);
    lemma_no_commas(name);
    lemma_commas_of_fields_bytes(fields);
}

} // verus!
