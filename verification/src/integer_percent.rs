use vstd::prelude::*;

verus! {

/// A whole-number percentage, always in `0..=100`.
#[derive(Debug, Clone, Copy, PartialEq, Eq, Structural, PartialOrd, Ord, Hash)]
pub struct IntegerPercent(u8);

impl IntegerPercent {
    /// The integer the percentage stands for (42% is `42`).
    pub closed spec fn value(self) -> int {
        self.0 as int
    }

    /// The percentage that stands for `val`.
    pub closed spec fn of(val: u8) -> Self {
        Self(val)
    }

    /// The percentage for a value is the one with that value.
    pub broadcast proof fn lemma_of_value(val: u8)
        ensures
            #[trigger] Self::of(val).value() == val,
    {
    }

    #[verifier::type_invariant]
    spec fn in_range(self) -> bool {
        self.0 <= 100
    }

    /// Makes the percentage `val`. The value must not exceed 100.
    pub fn new(val: u8) -> (percent: Self)
        requires
            val <= 100,
        ensures
            percent == Self::of(val),
            percent.value() == val,
    {
        Self(val)
    }

    /// The percentage 0%.
    pub fn zero() -> (percent: Self)
        ensures
            percent == Self::of(0),
            percent.value() == 0,
    {
        Self(0)
    }

    /// Convert to an integer value (42% would be `42`).
    pub fn as_u8(self) -> (val: u8)
        ensures
            val == self.value(),
            self == Self::of(val),
            val <= 100,
    {
        proof {
            use_type_invariant(&self);
        }
        self.0
    }
}

impl PartialEq<u8> for IntegerPercent {
    fn eq(&self, other: &u8) -> (equal: bool) {
        self.0 == *other
    }
}

impl vstd::std_specs::cmp::PartialEqSpecImpl<u8> for IntegerPercent {
    open spec fn obeys_eq_spec() -> bool {
        true
    }

    open spec fn eq_spec(&self, other: &u8) -> bool {
        self.value() == *other
    }
}

} // verus!
