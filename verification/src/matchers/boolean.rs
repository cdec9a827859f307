//! Matchers for booleans.
use crate::assertion::Assertion;
use crate::finality::appended;
use crate::sentence::{plain_sentence, AssertionSentence};
use vstd::prelude::*;

verus! {

/// Trait for boolean assertions.
pub trait BooleanMatchers {
    fn to_be_true(self) -> Self;

    fn to_be_false(self) -> Self;
}

impl BooleanMatchers for Assertion<bool> {
    fn to_be_true(self) -> (r: Self)
        ensures
            r.value == self.value,
            r@ == appended(self@, plain_sentence("be"@, "true"@), self.value),
    {
        let result = self.value;
        self.add_step(AssertionSentence::new("be", "true"), result)
    }

    fn to_be_false(self) -> (r: Self)
        ensures
            r.value == self.value,
            r@ == appended(self@, plain_sentence("be"@, "false"@), !self.value),
    {
        let result = !self.value;
        self.add_step(AssertionSentence::new("be", "false"), result)
    }
}

// Implementation for references to bool
impl BooleanMatchers for Assertion<&bool> {
    fn to_be_true(self) -> (r: Self)
        ensures
            r.value == self.value,
            r@ == appended(self@, plain_sentence("be"@, "true"@), *self.value),
    {
        let result = *self.value;
        self.add_step(AssertionSentence::new("be", "true"), result)
    }

    fn to_be_false(self) -> (r: Self)
        ensures
            r.value == self.value,
            r@ == appended(self@, plain_sentence("be"@, "false"@), !*self.value),
    {
        let result = !*self.value;
        self.add_step(AssertionSentence::new("be", "false"), result)
    }
}

} // verus!
