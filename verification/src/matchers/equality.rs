//! The equality matcher, for any type that can be compared and shown.
use crate::assertion::Assertion;
use crate::matchers::common::{
    after_step, compared, compared_step, last_passed, step_about, step_with_outcome,
};
use crate::text::debug_text;
use core::fmt::Debug;
use vstd::prelude::*;
use vstd::std_specs::cmp::PartialEqSpec;

verus! {

/// Trait for equality assertions.
pub trait EqualityMatchers<T> {
    /// Check if the value is equal to the expected value
    fn to_equal(self, expected: T) -> Self;

    /// Type-specific version of to_equal to avoid trait conflicts
    fn to_equal_value(self, expected: T) -> Self;
}

impl<T: Debug + PartialEq + Clone> EqualityMatchers<T> for Assertion<T> {
    fn to_equal(self, expected: T) -> (r: Self)
        ensures
            cloned(self.value, r.value),
            compared_step(self@, r@, "be"@, "equal to "@, self.value, expected),
            T::obeys_eq_spec() ==> last_passed(r@) == (self.value.eq_spec(&expected)
                != self@.negated),
    {
        self.to_equal_value(expected)
    }

    fn to_equal_value(self, expected: T) -> (r: Self)
        ensures
            cloned(self.value, r.value),
            compared_step(self@, r@, "be"@, "equal to "@, self.value, expected),
            T::obeys_eq_spec() ==> last_passed(r@) == (self.value.eq_spec(&expected)
                != self@.negated),
    {
        let result = self.value == expected;
        let rendered = debug_text(&expected);
        let r = step_about(self, "be", "equal to ", rendered.as_str(), result);
        proof {
            assert(r@ == after_step(self@, "be"@, "equal to "@, rendered@, result));
            assert(step_with_outcome(self@, r@, "be"@, "equal to "@, result));
        }
        r
    }
}

// Implementation for references to T
impl<T: Debug + PartialEq + Clone> EqualityMatchers<T> for Assertion<&T> {
    fn to_equal(self, expected: T) -> (r: Self)
        ensures
            r.value == self.value,
            compared_step(self@, r@, "be"@, "equal to "@, *self.value, expected),
            T::obeys_eq_spec() ==> last_passed(r@) == (self.value.eq_spec(&expected)
                != self@.negated),
    {
        self.to_equal_value(expected)
    }

    fn to_equal_value(self, expected: T) -> (r: Self)
        ensures
            r.value == self.value,
            compared_step(self@, r@, "be"@, "equal to "@, *self.value, expected),
            T::obeys_eq_spec() ==> last_passed(r@) == (self.value.eq_spec(&expected)
                != self@.negated),
    {
        let result = *self.value == expected;
        let rendered = debug_text(&expected);
        let r = step_about(self, "be", "equal to ", rendered.as_str(), result);
        proof {
            assert(r@ == after_step(self@, "be"@, "equal to "@, rendered@, result));
            assert(step_with_outcome(self@, r@, "be"@, "equal to "@, result));
        }
        r
    }
}

// Also allow comparing an owned value with a reference
impl<T: Debug + PartialEq + Clone> EqualityMatchers<&T> for Assertion<T> {
    fn to_equal(self, expected: &T) -> (r: Self)
        ensures
            cloned(self.value, r.value),
            compared_step(self@, r@, "be"@, "equal to "@, self.value, *expected),
            T::obeys_eq_spec() ==> last_passed(r@) == (self.value.eq_spec(expected)
                != self@.negated),
    {
        self.to_equal_value(expected)
    }

    fn to_equal_value(self, expected: &T) -> (r: Self)
        ensures
            cloned(self.value, r.value),
            compared_step(self@, r@, "be"@, "equal to "@, self.value, *expected),
            T::obeys_eq_spec() ==> last_passed(r@) == (self.value.eq_spec(expected)
                != self@.negated),
    {
        let result = self.value == *expected;
        let rendered = debug_text(expected);
        let r = step_about(self, "be", "equal to ", rendered.as_str(), result);
        proof {
            assert(r@ == after_step(self@, "be"@, "equal to "@, rendered@, result));
            assert(step_with_outcome(self@, r@, "be"@, "equal to "@, result));
        }
        r
    }
}

} // verus!
