//! The byte pipeline: how the bytes of the serial line become frames, and
//! how a frame goes out byte by byte.
//!
//! Nothing here touches the line. A driver takes a byte from its inbound
//! ring and hands it to a [`FrameReader`]; it asks a [`FrameWriter`] for the
//! next byte to offer to the transport, and tells it how that went.

use crate::cmd::laws::{all_plain, lemma_decode_encode, plain};
use crate::cmd::parse::{decode, Error, Frame};
use crate::cmd::serialize::{encode, fields_bytes, line_of};
use crate::cmd::{CARRIAGE_RETURN, CHECKSUM_MARK, FIELD_MARK, LINE_FEED, PREFIX};
use crate::{MAX_READ_CMD_US, MAX_WRITE_CMD_US};
use vstd::prelude::*;

verus! {

/// A frame in the making.
pub struct Assembly {
    /// The bytes taken so far.
    pub cmd: Seq<u8>,
    /// Whether the byte taken last was `\r`.
    pub last_is_carriage_return: bool,
}

/// The assembly before any byte.
pub open spec fn blank() -> Assembly {
    Assembly { cmd: Seq::empty(), last_is_carriage_return: false }
}

/// The assembly after one more byte, and whether that byte closes the frame.
///
/// A `$` in mid-frame drops what was taken and starts the frame anew. A `\n`
/// directly behind a `\r` closes the frame. Every other byte is just taken.
pub open spec fn accepted(assembly: Assembly, byte: u8) -> (Assembly, bool) {
    if byte == PREFIX && assembly.cmd.len() > 0 {
        (Assembly { cmd: seq![byte], last_is_carriage_return: false }, false)
    } else if byte == LINE_FEED && assembly.last_is_carriage_return {
        (Assembly { cmd: assembly.cmd.push(byte), last_is_carriage_return: false }, true)
    } else {
        (
            Assembly {
                cmd: assembly.cmd.push(byte),
                last_is_carriage_return: byte == CARRIAGE_RETURN,
            },
            false,
        )
    }
}

/// The assembly after all of `bytes`, taken from the start.
pub open spec fn assembled(bytes: Seq<u8>) -> Assembly
    decreases bytes.len(),
{
    if bytes.len() == 0 {
        blank()
    } else {
        accepted(assembled(bytes.drop_last()), bytes.last()).0
    }
}

/// Whether the last byte of `bytes` closes a frame.
pub open spec fn closes(bytes: Seq<u8>) -> bool {
    bytes.len() > 0 && accepted(assembled(bytes.drop_last()), bytes.last()).1
}

/// The assembly after the bytes of `bytes` up to the first that closes a
/// frame, how many bytes that takes, and whether one of them closes a frame.
/// Bytes behind the end of a frame are not taken.
pub open spec fn fed(assembly: Assembly, bytes: Seq<u8>) -> (Assembly, int, bool)
    decreases bytes.len(),
{
    if bytes.len() == 0 {
        (assembly, 0, false)
    } else {
        let (next, closed) = accepted(assembly, bytes[0]);
        if closed {
            (next, 1, true)
        } else {
            let (last, used, closed) = fed(next, bytes.skip(1));
            (last, used + 1, closed)
        }
    }
}

/// What to do next while a frame is read.
#[derive(Debug, Clone, Copy, PartialEq, Eq, Structural)]
pub enum ReadPoll {
    /// Take the next byte from the ring.
    Read,
    /// Give up: the ring has been empty for too long.
    TimedOut,
}

/// Assembles one frame from the bytes of the line.
#[derive(Debug)]
pub struct FrameReader {
    /// The bytes of the frame so far.
    pub cmd: Vec<u8>,
    /// Whether the byte taken last was `\r`.
    pub last_is_carriage_return: bool,
    /// The microseconds slept so far while the ring was empty.
    pub delayed: u32,
}

impl FrameReader {
    /// The frame in the making.
    pub open spec fn assembly(self) -> Assembly {
        Assembly { cmd: self.cmd@, last_is_carriage_return: self.last_is_carriage_return }
    }

    /// A reader that has taken nothing and waited for nothing.
    pub fn new() -> (reader: Self)
        ensures
            reader.assembly() == blank(),
            reader.delayed == 0,
    {
        Self { cmd: Vec::new(), last_is_carriage_return: false, delayed: 0 }
    }

    /// Whether to go on reading. Reading stops once more than
    /// `MAX_READ_CMD_US` microseconds have been slept.
    pub fn poll(&self) -> (poll: ReadPoll)
        ensures
            poll == if self.delayed > MAX_READ_CMD_US {
                ReadPoll::TimedOut
            } else {
                ReadPoll::Read
            },
    {
        if self.delayed > MAX_READ_CMD_US {
            ReadPoll::TimedOut
        } else {
            ReadPoll::Read
        }
    }

    /// Notes that the ring was empty and one microsecond was slept.
    pub fn waited(&mut self)
        ensures
            final(self).assembly() == old(self).assembly(),
            final(self).delayed == if old(self).delayed == u32::MAX {
                u32::MAX
            } else {
                (old(self).delayed + 1) as u32
            },
    {
        self.delayed = self.delayed.saturating_add(1);
    }

    /// Takes the next byte of the line. Returns whether it closes the frame;
    /// the frame is then in `cmd`.
    pub fn accept(&mut self, byte: u8) -> (closed: bool)
        ensures
            (final(self).assembly(), closed) == accepted(old(self).assembly(), byte),
            final(self).delayed == old(self).delayed,
    {
        if byte == PREFIX && self.cmd.len() > 0 {
            // Resync
            self.cmd.clear();
            self.cmd.push(byte);
            self.last_is_carriage_return = false;
            false
        } else if byte == LINE_FEED && self.last_is_carriage_return {
            self.cmd.push(byte);
            self.last_is_carriage_return = false;
            true
        } else {
            self.last_is_carriage_return = byte == CARRIAGE_RETURN;
            self.cmd.push(byte);
            false
        }
    }

    /// Takes bytes that the ring has granted, up to the first that closes the
    /// frame. Returns how many bytes were taken, which are to be released to
    /// the ring, and whether the frame is closed.
    pub fn feed(&mut self, bytes: &[u8]) -> (taken: (usize, bool))
        ensures
            (final(self).assembly(), taken.0 as int, taken.1) == fed(
                old(self).assembly(),
                bytes@,
            ),
            taken.0 <= bytes@.len(),
            final(self).delayed == old(self).delayed,
    {
        let mut used: usize = 0;
        assert(bytes@.skip(0) == bytes@);
        while used < bytes.len()
            invariant
                used <= bytes@.len(),
                self.delayed == old(self).delayed,
                fed(old(self).assembly(), bytes@) == ({
                    let (last, more, closed) = fed(self.assembly(), bytes@.skip(used as int));
                    (last, more + used, closed)
                }),
            decreases bytes@.len() - used,
        {
            let ghost rest = bytes@.skip(used as int);
            assert(rest.skip(1) == bytes@.skip(used + 1));
            let closed = self.accept(bytes[used]);
            used += 1;
            if closed {
                return (used, true);
            }
        }
        (used, false)
    }
}

/// What to do next while a frame is written.
#[derive(Debug, Clone, Copy, PartialEq, Eq, Structural)]
pub enum WriteStep {
    /// Offer this byte to the transport.
    Write(u8),
    /// The whole frame is out.
    Done,
}

/// What to do after the transport would have blocked.
#[derive(Debug, Clone, Copy, PartialEq, Eq, Structural)]
pub enum WriteWait {
    /// Sleep one microsecond, then offer the byte again.
    Sleep,
    /// Give up: the transport has blocked for too long.
    TimedOut,
}

/// Sends one frame byte by byte.
#[derive(Debug)]
pub struct FrameWriter {
    /// The frame to send.
    pub frame: Vec<u8>,
    /// How many bytes of it the transport has taken.
    pub sent: usize,
    /// The microseconds slept so far while the transport would block.
    pub delayed: u32,
}

impl FrameWriter {
    /// A writer with all of `frame` still to send.
    pub fn new(frame: Vec<u8>) -> (writer: Self)
        ensures
            writer.frame@ == frame@,
            writer.sent == 0,
            writer.delayed == 0,
    {
        Self { frame, sent: 0, delayed: 0 }
    }

    /// The byte to offer next, if any is left.
    pub fn next(&self) -> (step: WriteStep)
        ensures
            step == if self.sent < self.frame@.len() {
                WriteStep::Write(self.frame@[self.sent as int])
            } else {
                WriteStep::Done
            },
    {
        if self.sent < self.frame.len() {
            WriteStep::Write(self.frame[self.sent])
        } else {
            WriteStep::Done
        }
    }

    /// Notes that the transport took the byte that was offered.
    pub fn written(&mut self)
        ensures
            final(self).frame@ == old(self).frame@,
            final(self).delayed == old(self).delayed,
            final(self).sent == if old(self).sent < old(self).frame@.len() {
                (old(self).sent + 1) as usize
            } else {
                old(self).sent
            },
    {
        if self.sent < self.frame.len() {
            self.sent += 1;
        }
    }

    /// Notes that the transport would have blocked. Writing stops once more
    /// than `MAX_WRITE_CMD_US` microseconds have been slept; until then
    /// another microsecond of sleep is due.
    pub fn would_block(&mut self) -> (wait: WriteWait)
        ensures
            final(self).frame@ == old(self).frame@,
            final(self).sent == old(self).sent,
            wait == if old(self).delayed > MAX_WRITE_CMD_US {
                WriteWait::TimedOut
            } else {
                WriteWait::Sleep
            },
            final(self).delayed == if old(self).delayed > MAX_WRITE_CMD_US {
                old(self).delayed
            } else {
                (old(self).delayed + 1) as u32
            },
    {
        if self.delayed > MAX_WRITE_CMD_US {
            WriteWait::TimedOut
        } else {
            self.delayed += 1;
            WriteWait::Sleep
        }
    }
}

/// Whether `bytes` is free of every byte that means something to the line:
/// `$`, `,`, `*`, `\r` and `\n`.
pub open spec fn wire_safe(bytes: Seq<u8>) -> bool {
    forall|i: int|
        0 <= i < bytes.len() ==> bytes[i] != PREFIX && bytes[i] != FIELD_MARK && bytes[i]
            != CHECKSUM_MARK && bytes[i] != CARRIAGE_RETURN && bytes[i] != LINE_FEED
}

/// Whether every field of `fields` is wire-safe.
pub open spec fn all_wire_safe(fields: Seq<Seq<u8>>) -> bool {
    forall|i: int| 0 <= i < fields.len() ==> wire_safe(#[trigger] fields[i])
}

/// Whether `bytes` holds no frame terminator: nowhere does a `\n` stand
/// directly behind a `\r`.
pub open spec fn no_terminator(bytes: Seq<u8>) -> bool {
    forall|i: int|
        0 < i < bytes.len() ==> !(bytes[i - 1] == CARRIAGE_RETURN && #[trigger] bytes[i]
            == LINE_FEED)
}

/// After any bytes, the reader remembers a `\r` exactly if the last byte was
/// one.
pub proof fn lemma_remembers_carriage_return(bytes: Seq<u8>)
    ensures
        assembled(bytes).last_is_carriage_return == (bytes.len() > 0 && bytes.last()
            == CARRIAGE_RETURN),
    decreases bytes.len(),
{
    if bytes.len() > 0 {
        lemma_remembers_carriage_return(bytes.drop_last());
    }
}

/// A frame closes exactly where a `\n` stands directly behind a `\r`.
pub proof fn lemma_closes_on_terminator(bytes: Seq<u8>)
    ensures
        closes(bytes) == (bytes.len() >= 2 && bytes[bytes.len() - 2] == CARRIAGE_RETURN
            && bytes[bytes.len() - 1] == LINE_FEED),
{
    if bytes.len() > 0 {
        lemma_remembers_carriage_return(bytes.drop_last());
    }
}

proof fn lemma_fields_bytes_wire(fields: Seq<Seq<u8>>)
    requires
        all_wire_safe(fields),
    ensures
        forall|k: int|
            0 <= k < fields_bytes(fields).len() ==> {
                let byte = #[trigger] fields_bytes(fields)[k];
                byte != PREFIX && byte != CARRIAGE_RETURN && byte != LINE_FEED
            },
        all_plain(fields),
    decreases fields.len(),
{
    if fields.len() > 0 {
        assert(all_wire_safe(fields.drop_last())) by {
            assert forall|i: int| 0 <= i < fields.drop_last().len() implies wire_safe(
                #[trigger] fields.drop_last()[i],
            ) by {
                assert(fields.drop_last()[i] == fields[i]);
            }
        }
        lemma_fields_bytes_wire(fields.drop_last());
        assert(wire_safe(fields.last()));
        let head = fields_bytes(fields.drop_last());
        let last = fields.last();
        assert forall|k: int| 0 <= k < fields_bytes(fields).len() implies {
            let byte = #[trigger] fields_bytes(fields)[k];
            byte != PREFIX && byte != CARRIAGE_RETURN && byte != LINE_FEED
        } by {
            if k < head.len() {
                assert(fields_bytes(fields)[k] == head[k]);
            } else if k == head.len() {
                assert(fields_bytes(fields)[k] == FIELD_MARK);
            } else {
                assert(fields_bytes(fields)[k] == last[k - head.len() - 1]);
            }
        }
    }
    assert forall|i: int| 0 <= i < fields.len() implies plain(#[trigger] fields[i]) by {
        assert(wire_safe(fields[i]));
    }
}

/// What a frame for wire-safe name and fields looks like: it starts with
/// `$`, holds no other `$`, and `\r` and `\n` only as its last two bytes.
proof fn lemma_encode_shape(name: Seq<u8>, fields: Seq<Seq<u8>>)
    requires
        wire_safe(name),
        all_wire_safe(fields),
    ensures
        encode(name, fields).len() == line_of(name, fields).len() + 6,
        encode(name, fields)[0] == PREFIX,
        forall|k: int|
            0 < k < encode(name, fields).len() ==> #[trigger] encode(name, fields)[k] != PREFIX,
        forall|k: int|
            0 <= k < encode(name, fields).len() - 2 ==> {
                let byte = #[trigger] encode(name, fields)[k];
                byte != CARRIAGE_RETURN && byte != LINE_FEED
            },
        encode(name, fields)[encode(name, fields).len() - 2] == CARRIAGE_RETURN,
        encode(name, fields)[encode(name, fields).len() - 1] == LINE_FEED,
{
    let line = line_of(name, fields);
    let frame = encode(name, fields);
    let mark = 1 + line.len() as int;
    lemma_fields_bytes_wire(fields);
    assert(forall|k: int| 1 <= k < mark ==> frame[k] == line[k - 1]);
    assert(forall|k: int| 0 <= k < name.len() ==> line[k] == name[k]);
    assert(forall|k: int|
        name.len() <= k < line.len() ==> line[k] == fields_bytes(fields)[k - name.len()]);
    assert(frame[mark] == CHECKSUM_MARK);
    assert(forall|k: int| 1 <= k < mark ==> frame[k] != PREFIX && frame[k] != CARRIAGE_RETURN && frame[k] != LINE_FEED);
}

/// After any bytes and then the start of a frame, the reader holds that
/// start and nothing else.
proof fn lemma_assembles_frame(prefix: Seq<u8>, frame: Seq<u8>, upto: int)
    requires
        1 <= upto <= frame.len(),
        frame[0] == PREFIX,
        forall|k: int| 0 < k < frame.len() ==> frame[k] != PREFIX,
    ensures
        assembled(prefix + frame.take(upto)).cmd == frame.take(upto),
    decreases upto,
{
    let stream = prefix + frame.take(upto);
    if upto == 1 {
        assert(stream.drop_last() == prefix);
        assert(stream.last() == PREFIX);
        assert(frame.take(1) == seq![PREFIX]);
        assert(Seq::<u8>::empty().push(PREFIX) == seq![PREFIX]);
    } else {
        lemma_assembles_frame(prefix, frame, upto - 1);
        assert(stream.drop_last() == prefix + frame.take(upto - 1));
        assert(stream.last() == frame[upto - 1]);
        assert(frame.take(upto - 1).push(frame[upto - 1]) == frame.take(upto));
    }
}

/// Feeding bytes of which none but the last may close a frame takes them
/// all, one after another.
pub proof fn lemma_fed_to_the_end(done: Seq<u8>, rest: Seq<u8>)
    requires
        forall|k: int| 0 < k < rest.len() ==> !closes(done + #[trigger] rest.take(k)),
    ensures
        fed(assembled(done), rest) == (
            assembled(done + rest),
            rest.len() as int,
            rest.len() > 0 && closes(done + rest),
        ),
    decreases rest.len(),
{
    if rest.len() == 0 {
        assert(done + rest == done);
    } else {
        let first = done.push(rest[0]);
        let more = rest.skip(1);
        assert(first.drop_last() == done);
        assert(first.last() == rest[0]);
        assert(done + rest.take(1) == first);
        assert(accepted(assembled(done), rest[0]) == (assembled(first), closes(first)));
        if rest.len() == 1 {
            assert(done + rest == first);
            assert(fed(assembled(first), more) == (assembled(first), 0int, false));
        } else {
            assert(!closes(first));
            assert forall|k: int| 0 < k < more.len() implies !closes(
                first + #[trigger] more.take(k),
            ) by {
                assert(first + more.take(k) == done + rest.take(k + 1));
            }
            lemma_fed_to_the_end(first, more);
            assert(first + more == done + rest);
        }
    }
}

/// Resync: whatever came before a frame, as long as no frame terminator was
/// among it, the reader closes on the last byte of the frame and not before,
/// holds exactly the frame then, and the frame reads as what was written.
/// This covers noise without a `$` as well as a frame that broke off before
/// its `\r`.
pub proof fn lemma_resync(prefix: Seq<u8>, name: Seq<u8>, fields: Seq<Seq<u8>>)
    requires
        no_terminator(prefix),
        name.len() > 0,
        wire_safe(name),
        all_wire_safe(fields),
    ensures
        forall|k: int|
            0 <= k < (prefix + encode(name, fields)).len() ==> !closes(
                #[trigger] (prefix + encode(name, fields)).take(k),
            ),
        closes(prefix + encode(name, fields)),
        assembled(prefix + encode(name, fields)).cmd == encode(name, fields),
        decode(assembled(prefix + encode(name, fields)).cmd) == Ok::<Frame, Error>((name, fields)),
        fed(blank(), prefix + encode(name, fields)) == (
            assembled(prefix + encode(name, fields)),
            (prefix + encode(name, fields)).len() as int,
            true,
        ),
{
    let frame = encode(name, fields);
    let stream = prefix + frame;
    lemma_encode_shape(name, fields);
    lemma_fields_bytes_wire(fields);
    lemma_decode_encode(name, fields);
    lemma_assembles_frame(prefix, frame, frame.len() as int);
    assert(frame.take(frame.len() as int) == frame);
    lemma_closes_on_terminator(stream);
    assert forall|k: int| 0 <= k < stream.len() implies !closes(#[trigger] stream.take(k)) by {
        // The bytes before the last hold a terminator neither within what
        // came before the frame nor within the frame.
        lemma_closes_on_terminator(stream.take(k));
        if k >= 2 {
            assert(stream.take(k)[k - 1] == stream[k - 1]);
            assert(stream.take(k)[k - 2] == stream[k - 2]);
            if k - 1 < prefix.len() {
                assert(stream[k - 1] == prefix[k - 1]);
                assert(stream[k - 2] == prefix[k - 2]);
            } else {
                assert(stream[k - 1] == frame[k - 1 - prefix.len()]);
            }
        }
    }
    assert(Seq::<u8>::empty() + stream == stream);
    assert forall|k: int| 0 < k < stream.len() implies !closes(
        Seq::<u8>::empty() + #[trigger] stream.take(k),
    ) by {
        assert(Seq::<u8>::empty() + stream.take(k) == stream.take(k));
    }
    lemma_fed_to_the_end(Seq::empty(), stream);
}

} // verus!
