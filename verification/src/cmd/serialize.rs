use super::{Checksum, CARRIAGE_RETURN, CHECKSUM_MARK, FIELD_MARK, LINE_FEED, PREFIX};
use super::{hex_pair, xor_of};
use vstd::prelude::*;
use vstd::slice::slice_subrange;

verus! {

/// The bytes the fields add to a line: each field behind a `,`.
pub open spec fn fields_bytes(fields: Seq<Seq<u8>>) -> Seq<u8>
    decreases fields.len(),
{
    if fields.len() == 0 {
        Seq::empty()
    } else {
        fields_bytes(fields.drop_last()) + seq![FIELD_MARK] + fields.last()
    }
}

/// The line of a frame: what stands between `$` and `*`.
pub open spec fn line_of(name: Seq<u8>, fields: Seq<Seq<u8>>) -> Seq<u8> {
    name + fields_bytes(fields)
}

/// The frame for `name` and `fields` as it goes over the wire.
pub open spec fn encode(name: Seq<u8>, fields: Seq<Seq<u8>>) -> Seq<u8> {
    let line = line_of(name, fields);
    seq![PREFIX] + line + seq![CHECKSUM_MARK] + hex_pair(xor_of(line)) + seq![
        CARRIAGE_RETURN,
        LINE_FEED,
    ]
}

/// The contents of borrowed fields.
pub open spec fn views_of(fields: Seq<&[u8]>) -> Seq<Seq<u8>> {
    Seq::new(fields.len(), |i: int| fields[i]@)
}

/// Appends the frame for `name` and `fields` to `out`.
pub fn serialize(name: &[u8], fields: &[&[u8]], out: &mut Vec<u8>)
    ensures
        final(out)@ == old(out)@ + encode(name@, views_of(fields@)),
{
    let ghost before = out@;
    let ghost views = views_of(fields@);
    let start: usize = out.len();
    out.push(PREFIX);

    let mut i: usize = 0;
    while i < name.len()
        invariant
            i <= name@.len(),
            out@ == before + seq![PREFIX] + name@.take(i as int),
        decreases name@.len() - i,
    {
        out.push(name[i]);
        i += 1;
    }

    let mut k: usize = 0;
    while k < fields.len()
        invariant
            k <= fields@.len(),
            views == views_of(fields@),
            out@ == before + seq![PREFIX] + name@ + fields_bytes(views.take(k as int)),
        decreases fields@.len() - k,
    {
        let field = fields[k];
        let ghost head = out@ + seq![FIELD_MARK];
        out.push(FIELD_MARK);
        let mut j: usize = 0;
        while j < field.len()
            invariant
                j <= field@.len(),
                out@ == head + field@.take(j as int),
            decreases field@.len() - j,
        {
            out.push(field[j]);
            j += 1;
        }
        proof {
            assert(views.take(k + 1).drop_last() == views.take(k as int));
        }
        k += 1;
    }
    assert(views.take(k as int) == views);

    out.push(CHECKSUM_MARK);
    let ghost line = line_of(name@, views);
    let end: usize = out.len() - 1;
    let checksum = Checksum::compute_for(slice_subrange(out.as_slice(), start + 1, end));
    assert(out@.subrange(start + 1, out@.len() - 1) == line);
    let ascii = checksum.to_ascii();
    out.push(ascii[0]);
    out.push(ascii[1]);
    out.push(CARRIAGE_RETURN);
    out.push(LINE_FEED);
}

} // verus!
