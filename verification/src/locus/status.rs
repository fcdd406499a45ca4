use crate::integer_percent::IntegerPercent;
use vstd::prelude::*;

verus! {

/// What the receiver reports of its logger.
#[derive(Debug, Clone, Copy, PartialEq, Eq, PartialOrd, Ord, Hash)]
pub struct LoggerStatus {
    pub interval: u32,
    pub is_on: bool,
    pub record_count: u32,
    pub percent_full: IntegerPercent,
}

} // verus!
