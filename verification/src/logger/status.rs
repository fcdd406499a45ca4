use crate::integer_percent::IntegerPercent;
use vstd::prelude::*;

verus! {

/// What the logger reports of itself.
#[derive(Debug, Clone, Copy, PartialEq, Eq, PartialOrd, Ord, Hash)]
pub struct Status {
    pub interval: u32,
    pub is_on: bool,
    pub record_count: u32,
    pub percent_full: IntegerPercent,
}

} // verus!
