//! Matchers for results.
use crate::assertion::Assertion;
use crate::finality::appended;
use crate::matchers::common::{
    after_step, compared_step, last_passed, step_about, step_with_outcome,
};
use crate::sentence::{plain_sentence, AssertionSentence};
use crate::text::debug_text;
use core::fmt::Debug;
use vstd::prelude::*;
use vstd::std_specs::cmp::PartialEqSpec;

verus! {

/// Trait for `Result<T, E>` assertions.
pub trait ResultMatchers<T: Debug, E: Debug> {
    fn to_be_ok(self) -> Self;

    fn to_be_err(self) -> Self;

    fn to_contain_ok<U: PartialEq<T> + Debug>(self, expected: &U) -> Self;

    fn to_contain_err<U: PartialEq<E> + Debug>(self, expected: &U) -> Self;
}

impl<T: Debug + Clone, E: Debug + Clone> ResultMatchers<T, E> for Assertion<Result<T, E>> {
    fn to_be_ok(self) -> (r: Self)
        ensures
            cloned(self.value, r.value),
            r@ == appended(self@, plain_sentence("be"@, "ok"@), self.value is Ok),
    {
        let result = self.value.is_ok();
        self.add_step(AssertionSentence::new("be", "ok"), result)
    }

    fn to_be_err(self) -> (r: Self)
        ensures
            cloned(self.value, r.value),
            r@ == appended(self@, plain_sentence("be"@, "err"@), self.value is Err),
    {
        let result = self.value.is_err();
        self.add_step(AssertionSentence::new("be", "err"), result)
    }

    fn to_contain_ok<U: PartialEq<T> + Debug>(self, expected: &U) -> (r: Self)
        ensures
            cloned(self.value, r.value),
            match self.value {
                Ok(actual) => compared_step(self@, r@, "contain"@, "ok value "@, *expected, actual),
                Err(_) => step_with_outcome(self@, r@, "contain"@, "ok value "@, false),
            },
            U::obeys_eq_spec() ==> last_passed(r@) == ((match self.value {
                Ok(actual) => expected.eq_spec(&actual),
                Err(_) => false,
            }) != self@.negated),
    {
        let result = match &self.value {
            Ok(actual) => *expected == *actual,
            Err(_) => false,
        };
        let rendered = debug_text(expected);
        let r = step_about(self, "contain", "ok value ", rendered.as_str(), result);
        proof {
            assert(r@ == after_step(self@, "contain"@, "ok value "@, rendered@, result));
            assert(step_with_outcome(self@, r@, "contain"@, "ok value "@, result));
        }
        r
    }

    fn to_contain_err<U: PartialEq<E> + Debug>(self, expected: &U) -> (r: Self)
        ensures
            cloned(self.value, r.value),
            match self.value {
                Ok(_) => step_with_outcome(self@, r@, "contain"@, "err value "@, false),
                Err(actual) => compared_step(
                    self@,
                    r@,
                    "contain"@,
                    "err value "@,
                    *expected,
                    actual,
                ),
            },
            U::obeys_eq_spec() ==> last_passed(r@) == ((match self.value {
                Ok(_) => false,
                Err(actual) => expected.eq_spec(&actual),
            }) != self@.negated),
    {
        let result = match &self.value {
            Ok(_) => false,
            Err(actual) => *expected == *actual,
        };
        let rendered = debug_text(expected);
        let r = step_about(self, "contain", "err value ", rendered.as_str(), result);
        proof {
            assert(r@ == after_step(self@, "contain"@, "err value "@, rendered@, result));
            assert(step_with_outcome(self@, r@, "contain"@, "err value "@, result));
        }
        r
    }
}

// Implementation for references to Result<T, E>
impl<T: Debug + Clone, E: Debug + Clone> ResultMatchers<T, E> for Assertion<&Result<T, E>> {
    fn to_be_ok(self) -> (r: Self)
        ensures
            r.value == self.value,
            r@ == appended(self@, plain_sentence("be"@, "ok"@), self.value is Ok),
    {
        let result = self.value.is_ok();
        self.add_step(AssertionSentence::new("be", "ok"), result)
    }

    fn to_be_err(self) -> (r: Self)
        ensures
            r.value == self.value,
            r@ == appended(self@, plain_sentence("be"@, "err"@), self.value is Err),
    {
        let result = self.value.is_err();
        self.add_step(AssertionSentence::new("be", "err"), result)
    }

    fn to_contain_ok<U: PartialEq<T> + Debug>(self, expected: &U) -> (r: Self)
        ensures
            r.value == self.value,
            match self.value {
                Ok(actual) => compared_step(self@, r@, "contain"@, "ok value "@, *expected, *actual),
                Err(_) => step_with_outcome(self@, r@, "contain"@, "ok value "@, false),
            },
            U::obeys_eq_spec() ==> last_passed(r@) == ((match self.value {
                Ok(actual) => expected.eq_spec(&actual),
                Err(_) => false,
            }) != self@.negated),
    {
        let result = match self.value {
            Ok(actual) => *expected == *actual,
            Err(_) => false,
        };
        let rendered = debug_text(expected);
        let r = step_about(self, "contain", "ok value ", rendered.as_str(), result);
        proof {
            assert(r@ == after_step(self@, "contain"@, "ok value "@, rendered@, result));
            assert(step_with_outcome(self@, r@, "contain"@, "ok value "@, result));
        }
        r
    }

    fn to_contain_err<U: PartialEq<E> + Debug>(self, expected: &U) -> (r: Self)
        ensures
            r.value == self.value,
            match self.value {
                Ok(_) => step_with_outcome(self@, r@, "contain"@, "err value "@, false),
                Err(actual) => compared_step(
                    self@,
                    r@,
                    "contain"@,
                    "err value "@,
                    *expected,
                    *actual,
                ),
            },
            U::obeys_eq_spec() ==> last_passed(r@) == ((match self.value {
                Ok(_) => false,
                Err(actual) => expected.eq_spec(&actual),
            }) != self@.negated),
    {
        let result = match self.value {
            Ok(_) => false,
            Err(actual) => *expected == *actual,
        };
        let rendered = debug_text(expected);
        let r = step_about(self, "contain", "err value ", rendered.as_str(), result);
        proof {
            assert(r@ == after_step(self@, "contain"@, "err value "@, rendered@, result));
            assert(step_with_outcome(self@, r@, "contain"@, "err value "@, result));
        }
        r
    }
}

} // verus!
