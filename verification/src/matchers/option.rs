//! Matchers for optional values.
use crate::assertion::Assertion;
use crate::finality::appended;
use crate::matchers::common::{
    after_step, compared_step, last_passed, step_about, step_with_outcome,
};
use crate::sentence::{plain_sentence, AssertionSentence};
use crate::text::debug_text;
use core::fmt::Debug;
use vstd::prelude::*;
use vstd::std_specs::cmp::PartialEqSpec;

verus! {

/// Trait for `Option<T>` assertions.
pub trait OptionMatchers<T: Debug> {
    fn to_be_some(self) -> Self;

    fn to_be_none(self) -> Self;

    fn to_contain(self, expected: &T) -> Self where T: PartialEq;

    fn to_contain_value<U: PartialEq<T> + Debug>(self, expected: U) -> Self;
}

// Implementation for owned Option<T>
impl<T: Debug + Clone + PartialEq> OptionMatchers<T> for Assertion<Option<T>> {
    fn to_be_some(self) -> (r: Self)
        ensures
            cloned(self.value, r.value),
            r@ == appended(self@, plain_sentence("be"@, "some"@), self.value is Some),
    {
        let result = self.value.is_some();
        self.add_step(AssertionSentence::new("be", "some"), result)
    }

    fn to_be_none(self) -> (r: Self)
        ensures
            cloned(self.value, r.value),
            r@ == appended(self@, plain_sentence("be"@, "none"@), self.value is None),
    {
        let result = self.value.is_none();
        self.add_step(AssertionSentence::new("be", "none"), result)
    }

    fn to_contain(self, expected: &T) -> (r: Self) where T: PartialEq
        ensures
            cloned(self.value, r.value),
            match self.value {
                Some(actual) => compared_step(self@, r@, "contain"@, ""@, actual, *expected),
                None => step_with_outcome(self@, r@, "contain"@, ""@, false),
            },
            T::obeys_eq_spec() ==> last_passed(r@) == ((match self.value {
                Some(actual) => actual.eq_spec(expected),
                None => false,
            }) != self@.negated),
    {
        let result = match &self.value {
            Some(actual) => *actual == *expected,
            None => false,
        };
        let rendered = debug_text(expected);
        let r = step_about(self, "contain", "", rendered.as_str(), result);
        proof {
            assert(r@ == after_step(self@, "contain"@, ""@, rendered@, result));
            assert(step_with_outcome(self@, r@, "contain"@, ""@, result));
        }
        r
    }

    fn to_contain_value<U: PartialEq<T> + Debug>(self, expected: U) -> (r: Self)
        ensures
            cloned(self.value, r.value),
            match self.value {
                Some(actual) => compared_step(self@, r@, "contain"@, "value "@, expected, actual),
                None => step_with_outcome(self@, r@, "contain"@, "value "@, false),
            },
            U::obeys_eq_spec() ==> last_passed(r@) == ((match self.value {
                Some(actual) => expected.eq_spec(&actual),
                None => false,
            }) != self@.negated),
    {
        let result = match &self.value {
            Some(actual) => expected == *actual,
            None => false,
        };
        let rendered = debug_text(&expected);
        let r = step_about(self, "contain", "value ", rendered.as_str(), result);
        proof {
            assert(r@ == after_step(self@, "contain"@, "value "@, rendered@, result));
            assert(step_with_outcome(self@, r@, "contain"@, "value "@, result));
        }
        r
    }
}

// Implementation for references to Option<T>
impl<T: Debug + Clone + PartialEq> OptionMatchers<T> for Assertion<&Option<T>> {
    fn to_be_some(self) -> (r: Self)
        ensures
            r.value == self.value,
            r@ == appended(self@, plain_sentence("be"@, "some"@), self.value is Some),
    {
        let result = self.value.is_some();
        self.add_step(AssertionSentence::new("be", "some"), result)
    }

    fn to_be_none(self) -> (r: Self)
        ensures
            r.value == self.value,
            r@ == appended(self@, plain_sentence("be"@, "none"@), self.value is None),
    {
        let result = self.value.is_none();
        self.add_step(AssertionSentence::new("be", "none"), result)
    }

    fn to_contain(self, expected: &T) -> (r: Self) where T: PartialEq
        ensures
            r.value == self.value,
            match self.value {
                Some(actual) => compared_step(self@, r@, "contain"@, ""@, *actual, *expected),
                None => step_with_outcome(self@, r@, "contain"@, ""@, false),
            },
            T::obeys_eq_spec() ==> last_passed(r@) == ((match self.value {
                Some(actual) => actual.eq_spec(expected),
                None => false,
            }) != self@.negated),
    {
        let result = match self.value {
            Some(actual) => *actual == *expected,
            None => false,
        };
        let rendered = debug_text(expected);
        let r = step_about(self, "contain", "", rendered.as_str(), result);
        proof {
            assert(r@ == after_step(self@, "contain"@, ""@, rendered@, result));
            assert(step_with_outcome(self@, r@, "contain"@, ""@, result));
        }
        r
    }

    fn to_contain_value<U: PartialEq<T> + Debug>(self, expected: U) -> (r: Self)
        ensures
            r.value == self.value,
            match self.value {
                Some(actual) => compared_step(self@, r@, "contain"@, "value "@, expected, *actual),
                None => step_with_outcome(self@, r@, "contain"@, "value "@, false),
            },
            U::obeys_eq_spec() ==> last_passed(r@) == ((match self.value {
                Some(actual) => expected.eq_spec(&actual),
                None => false,
            }) != self@.negated),
    {
        let result = match self.value {
            Some(actual) => expected == *actual,
            None => false,
        };
        let rendered = debug_text(&expected);
        let r = step_about(self, "contain", "value ", rendered.as_str(), result);
        proof {
            assert(r@ == after_step(self@, "contain"@, "value "@, rendered@, result));
            assert(step_with_outcome(self@, r@, "contain"@, "value "@, result));
        }
        r
    }
}

} // verus!
