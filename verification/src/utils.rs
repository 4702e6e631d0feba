//! Small helpers on ordered values.

use vstd::prelude::*;
use vstd::std_specs::cmp::PartialOrdIs;
use vstd::std_specs::cmp::PartialOrdSpec;

verus! {

/// Values that can be held between two bounds.
pub trait Clampable<T = Self> {
    /// `lower` where the value is less than it, else `upper` where the
    /// value is greater than it, else the value.
    fn clamp<'a>(&'a self, lower: &'a T, upper: &'a T) -> &'a T;
}

impl<T: PartialOrd> Clampable for T {
    fn clamp<'a>(&'a self, lower: &'a T, upper: &'a T) -> (r: &'a T)
        ensures
            T::obeys_partial_cmp_spec() ==> *r == if self.is_lt(lower) {
                *lower
            } else if self.is_gt(upper) {
                *upper
            } else {
                *self
            },
    {
        if self < lower {
            lower
        } else if self > upper {
            upper
        } else {
            self
        }
    }
}

} // verus!
