//! JSON numbers.

use vstd::prelude::*;

verus! {

/// An integer, held as a sign and a magnitude. Zero has no sign.
#[derive(Clone, Copy, Debug)]
pub struct Number {
    negative: bool,
    magnitude: u64,
}

impl View for Number {
    type V = int;

    /// The integer that the number stands for.
    closed spec fn view(&self) -> int {
        if self.negative {
            -(self.magnitude as int)
        } else {
            self.magnitude as int
        }
    }
}

impl Number {
    #[verifier::type_invariant]
    spec fn inv(&self) -> bool {
        self.negative ==> self.magnitude > 0
    }

    /// The number with the given sign and magnitude.
    pub fn from_parts(positive: bool, magnitude: u64) -> (number: Number)
        ensures
            number@ == if positive {
                magnitude as int
            } else {
                -(magnitude as int)
            },
    {
        Number { negative: !positive && magnitude != 0, magnitude }
    }

    /// The number that stands for `value`, which must be within the range
    /// that a sign and 64 bits reach.
    pub closed spec fn of(value: int) -> Number {
        Number {
            negative: value < 0,
            magnitude: if value < 0 {
                (-value) as u64
            } else {
                value as u64
            },
        }
    }

    /// `of` yields the number that stands for its argument.
    pub proof fn lemma_of(value: int)
        requires
            -(u64::MAX as int) <= value <= u64::MAX as int,
        ensures
            Number::of(value)@ == value,
    {
    }

    /// The sign, `true` for a number that is not negative, and the magnitude.
    pub fn as_parts(&self) -> (parts: (bool, u64))
        ensures
            parts.0 == (self@ >= 0),
            parts.1 == if self@ >= 0 {
                self@
            } else {
                -self@
            },
    {
        proof {
            use_type_invariant(self);
        }
        (!self.negative, self.magnitude)
    }
}

impl PartialEq for Number {
    /// Numbers are equal exactly if they stand for the same integer.
    fn eq(&self, other: &Number) -> (same: bool)
    {
        proof {
            use_type_invariant(self);
            use_type_invariant(other);
        }
        self.negative == other.negative && self.magnitude == other.magnitude
    }
}

impl vstd::std_specs::cmp::PartialEqSpecImpl for Number {
    open spec fn obeys_eq_spec() -> bool {
        true
    }

    open spec fn eq_spec(&self, other: &Number) -> bool {
        self@ == other@
    }
}

impl From<u8> for Number {
    fn from(value: u8) -> (number: Number)
        ensures
            number@ == value as int,
    {
        Number { negative: false, magnitude: value as u64 }
    }
}

impl vstd::std_specs::convert::FromSpecImpl<u8> for Number {
    open spec fn obeys_from_spec() -> bool {
        true
    }

    open spec fn from_spec(value: u8) -> Number {
        Number::of(value as int)
    }
}

impl From<u16> for Number {
    fn from(value: u16) -> (number: Number)
        ensures
            number@ == value as int,
    {
        Number { negative: false, magnitude: value as u64 }
    }
}

impl vstd::std_specs::convert::FromSpecImpl<u16> for Number {
    open spec fn obeys_from_spec() -> bool {
        true
    }

    open spec fn from_spec(value: u16) -> Number {
        Number::of(value as int)
    }
}

impl From<u32> for Number {
    fn from(value: u32) -> (number: Number)
        ensures
            number@ == value as int,
    {
        Number { negative: false, magnitude: value as u64 }
    }
}

impl vstd::std_specs::convert::FromSpecImpl<u32> for Number {
    open spec fn obeys_from_spec() -> bool {
        true
    }

    open spec fn from_spec(value: u32) -> Number {
        Number::of(value as int)
    }
}

impl From<u64> for Number {
    fn from(value: u64) -> (number: Number)
        ensures
            number@ == value as int,
    {
        Number { negative: false, magnitude: value as u64 }
    }
}

impl vstd::std_specs::convert::FromSpecImpl<u64> for Number {
    open spec fn obeys_from_spec() -> bool {
        true
    }

    open spec fn from_spec(value: u64) -> Number {
        Number::of(value as int)
    }
}

impl From<usize> for Number {
    fn from(value: usize) -> (number: Number)
        ensures
            number@ == value as int,
    {
        Number { negative: false, magnitude: value as u64 }
    }
}

impl vstd::std_specs::convert::FromSpecImpl<usize> for Number {
    open spec fn obeys_from_spec() -> bool {
        true
    }

    open spec fn from_spec(value: usize) -> Number {
        Number::of(value as int)
    }
}

impl From<i8> for Number {
    fn from(value: i8) -> (number: Number)
        ensures
            number@ == value as int,
    {
        let wide = value as i64;
        if wide < 0 {
            Number { negative: true, magnitude: ((-(wide + 1)) as u64) + 1 }
        } else {
            Number { negative: false, magnitude: wide as u64 }
        }
    }
}

impl vstd::std_specs::convert::FromSpecImpl<i8> for Number {
    open spec fn obeys_from_spec() -> bool {
        true
    }

    open spec fn from_spec(value: i8) -> Number {
        Number::of(value as int)
    }
}

impl From<i16> for Number {
    fn from(value: i16) -> (number: Number)
        ensures
            number@ == value as int,
    {
        let wide = value as i64;
        if wide < 0 {
            Number { negative: true, magnitude: ((-(wide + 1)) as u64) + 1 }
        } else {
            Number { negative: false, magnitude: wide as u64 }
        }
    }
}

impl vstd::std_specs::convert::FromSpecImpl<i16> for Number {
    open spec fn obeys_from_spec() -> bool {
        true
    }

    open spec fn from_spec(value: i16) -> Number {
        Number::of(value as int)
    }
}

impl From<i32> for Number {
    fn from(value: i32) -> (number: Number)
        ensures
            number@ == value as int,
    {
        let wide = value as i64;
        if wide < 0 {
            Number { negative: true, magnitude: ((-(wide + 1)) as u64) + 1 }
        } else {
            Number { negative: false, magnitude: wide as u64 }
        }
    }
}

impl vstd::std_specs::convert::FromSpecImpl<i32> for Number {
    open spec fn obeys_from_spec() -> bool {
        true
    }

    open spec fn from_spec(value: i32) -> Number {
        Number::of(value as int)
    }
}

impl From<i64> for Number {
    fn from(value: i64) -> (number: Number)
        ensures
            number@ == value as int,
    {
        let wide = value as i64;
        if wide < 0 {
            Number { negative: true, magnitude: ((-(wide + 1)) as u64) + 1 }
        } else {
            Number { negative: false, magnitude: wide as u64 }
        }
    }
}

impl vstd::std_specs::convert::FromSpecImpl<i64> for Number {
    open spec fn obeys_from_spec() -> bool {
        true
    }

    open spec fn from_spec(value: i64) -> Number {
        Number::of(value as int)
    }
}

impl From<isize> for Number {
    fn from(value: isize) -> (number: Number)
        ensures
            number@ == value as int,
    {
        let wide = value as i64;
        if wide < 0 {
            Number { negative: true, magnitude: ((-(wide + 1)) as u64) + 1 }
        } else {
            Number { negative: false, magnitude: wide as u64 }
        }
    }
}

impl vstd::std_specs::convert::FromSpecImpl<isize> for Number {
    open spec fn obeys_from_spec() -> bool {
        true
    }

    open spec fn from_spec(value: isize) -> Number {
        Number::of(value as int)
    }
}

} // verus!
