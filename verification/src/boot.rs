//! Watching the receiver boot.
//!
//! When the receiver is powered on or restarted, it sends both
//! `$PMTK010,001*2E` and `$PMTK011,MTKGPS*08` once it has completed its
//! boot-up stage, in either order and among frames that no document speaks
//! of.

use crate::cmd::parse::{bytes_equal, contents_of, decode, parse};
use crate::{MAX_READ_ERRORS_ON_BOOT, MAX_READ_SPURIOUS_BEFORE_BOOT};
use vstd::prelude::*;

verus! {

/// `PMTK010`, the name of a system message.
pub const SYS_MSG_NAME: [u8; 7] = [0x50, 0x4d, 0x54, 0x4b, 0x30, 0x31, 0x30];

/// `001`, the system message that says the receiver has started.
pub const SYS_MSG_STARTUP: [u8; 3] = [0x30, 0x30, 0x31];

/// `PMTK011`, the name of the text message.
pub const TXT_MSG_NAME: [u8; 7] = [0x50, 0x4d, 0x54, 0x4b, 0x30, 0x31, 0x31];

/// `MTKGPS`, the text that the receiver sends when it has booted.
pub const TXT_MSG_MTKGPS: [u8; 6] = [0x4d, 0x54, 0x4b, 0x47, 0x50, 0x53];

/// What a frame means to someone who waits for the receiver to boot.
#[derive(Debug, Clone, Copy, PartialEq, Eq, Structural)]
pub enum BootSign {
    /// The system message that says the receiver has started.
    SysMsg,
    /// The text message of a receiver that has booted.
    MtkGps,
    /// Neither of the two.
    Spurious,
}

/// How the wait for the receiver to boot stands.
#[derive(Debug, Clone, Copy, PartialEq, Eq, Structural)]
pub enum BootVerdict {
    /// Both messages have been seen.
    Booted,
    /// Too many reads have failed, or too many other frames have come.
    Failed,
    /// Another frame is to be read.
    Waiting,
}

/// What has been seen while waiting for the receiver to boot.
#[derive(Debug, Clone, Copy, PartialEq, Eq, Structural)]
pub struct BootWatch {
    pub seen_boot_sys_msg: bool,
    pub seen_mtkgps: bool,
    pub read_errors: usize,
    pub read_spurious: usize,
}

/// What a frame with this name and these fields means.
pub open spec fn sign_of(name: Seq<u8>, fields: Seq<Seq<u8>>) -> BootSign {
    if name == SYS_MSG_NAME@ && fields == seq![SYS_MSG_STARTUP@] {
        BootSign::SysMsg
    } else if name == TXT_MSG_NAME@ && fields == seq![TXT_MSG_MTKGPS@] {
        BootSign::MtkGps
    } else {
        BootSign::Spurious
    }
}

/// A counter after one more count; it stops at the greatest number it can
/// hold.
pub open spec fn one_more(count: usize) -> usize {
    if count < usize::MAX {
        (count + 1) as usize
    } else {
        count
    }
}

impl BootWatch {
    /// The watch before anything was read.
    pub open spec fn fresh() -> BootWatch {
        BootWatch {
            seen_boot_sys_msg: false,
            seen_mtkgps: false,
            read_errors: 0,
            read_spurious: 0,
        }
    }

    /// How the wait stands. The receiver has booted once both messages have
    /// been seen. Until then the wait fails once more than
    /// `MAX_READ_ERRORS_ON_BOOT` reads have failed or more than
    /// `MAX_READ_SPURIOUS_BEFORE_BOOT` other frames have come.
    pub open spec fn verdict(self) -> BootVerdict {
        if self.seen_boot_sys_msg && self.seen_mtkgps {
            BootVerdict::Booted
        } else if self.read_errors > MAX_READ_ERRORS_ON_BOOT || self.read_spurious
            > MAX_READ_SPURIOUS_BEFORE_BOOT {
            BootVerdict::Failed
        } else {
            BootVerdict::Waiting
        }
    }

    /// The watch after a frame that means `sign`.
    pub open spec fn saw(self, sign: BootSign) -> BootWatch {
        match sign {
            BootSign::SysMsg => BootWatch { seen_boot_sys_msg: true, ..self },
            BootSign::MtkGps => BootWatch { seen_mtkgps: true, ..self },
            BootSign::Spurious => BootWatch { read_spurious: one_more(self.read_spurious), ..self },
        }
    }

    /// The watch after a read that failed.
    pub open spec fn missed(self) -> BootWatch {
        BootWatch { read_errors: one_more(self.read_errors), ..self }
    }

    /// The watch after the bytes of a frame came in. A frame that cannot be
    /// read counts as a read that failed.
    pub open spec fn observed(self, frame: Seq<u8>) -> BootWatch {
        match decode(frame) {
            Ok((name, fields)) => self.saw(sign_of(name, fields)),
            Err(_) => self.missed(),
        }
    }

    /// The watch before anything was read.
    pub fn new() -> (watch: Self)
        ensures
            watch == Self::fresh(),
    {
        Self { seen_boot_sys_msg: false, seen_mtkgps: false, read_errors: 0, read_spurious: 0 }
    }

    /// How the wait stands.
    pub fn check(&self) -> (verdict: BootVerdict)
        ensures
            verdict == self.verdict(),
    {
        if self.seen_boot_sys_msg && self.seen_mtkgps {
            BootVerdict::Booted
        } else if self.read_errors > MAX_READ_ERRORS_ON_BOOT || self.read_spurious
            > MAX_READ_SPURIOUS_BEFORE_BOOT {
            BootVerdict::Failed
        } else {
            BootVerdict::Waiting
        }
    }

    /// Notes a read that failed.
    pub fn miss(&mut self)
        ensures
            *final(self) == old(self).missed(),
    {
        self.read_errors = self.read_errors.saturating_add(1);
    }

    /// Notes the bytes of a frame that came in.
    pub fn observe(&mut self, frame: &[u8])
        ensures
            *final(self) == old(self).observed(frame@),
    {
        match parse(frame) {
            Ok((name, fields)) => {
                let sign = classify(name.as_slice(), fields.as_slice());
                match sign {
                    BootSign::SysMsg => {
                        self.seen_boot_sys_msg = true;
                    },
                    BootSign::MtkGps => {
                        self.seen_mtkgps = true;
                    },
                    BootSign::Spurious => {
                        self.read_spurious = self.read_spurious.saturating_add(1);
                    },
                }
            },
            Err(_) => {
                self.miss();
            },
        }
    }
}

/// Whether `fields` is the one field `only`.
fn is_single_field(fields: &[Vec<u8>], only: &[u8]) -> (single: bool)
    ensures
        single == (contents_of(fields@) == seq![only@]),
{
    if fields.len() != 1 {
        assert(contents_of(fields@).len() != 1);
        return false;
    }
    assert(contents_of(fields@)[0] == fields@[0]@);
    let same = bytes_equal(fields[0].as_slice(), only);
    if same {
        assert(contents_of(fields@) == seq![only@]);
    }
    same
}

/// What a frame with this name and these fields means.
pub fn classify(name: &[u8], fields: &[Vec<u8>]) -> (sign: BootSign)
    ensures
        sign == sign_of(name@, contents_of(fields@)),
{
    if bytes_equal(name, SYS_MSG_NAME.as_slice()) && is_single_field(
        fields,
        SYS_MSG_STARTUP.as_slice(),
    ) {
        BootSign::SysMsg
    } else if bytes_equal(name, TXT_MSG_NAME.as_slice()) && is_single_field(
        fields,
        TXT_MSG_MTKGPS.as_slice(),
    ) {
        BootSign::MtkGps
    } else {
        BootSign::Spurious
    }
}

/// The two messages may come in either order: a watch that has seen both has
/// booted, whatever else it has counted.
pub proof fn lemma_booted_in_either_order(watch: BootWatch)
    ensures
        watch.saw(BootSign::SysMsg).saw(BootSign::MtkGps).verdict() == BootVerdict::Booted,
        watch.saw(BootSign::MtkGps).saw(BootSign::SysMsg).verdict() == BootVerdict::Booted,
        watch.saw(BootSign::SysMsg).saw(BootSign::MtkGps) == watch.saw(BootSign::MtkGps).saw(
            BootSign::SysMsg,
        ),
{
}

} // verus!
