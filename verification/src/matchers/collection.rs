//! Matchers for collections: slices, vectors and arrays.
use crate::assertion::Assertion;
use crate::finality::appended;
use crate::matchers::common::{
    after_step, compared, last_passed, length_sentence, numbered, step_about, step_with_outcome,
};
use crate::sentence::{plain_sentence, AssertionSentence};
use crate::text::debug_text;
use core::fmt::Debug;
use vstd::prelude::*;
use vstd::string::*;
use vstd::std_specs::cmp::PartialEqSpec;

verus! {

/// Some item of `items` equals `expected`.
pub open spec fn holds_equal<T, U: PartialEq<T>>(items: Seq<T>, expected: U) -> bool {
    exists|i: int| 0 <= i < items.len() && expected.eq_spec(&#[trigger] items[i])
}

/// Each of `expected` equals some item of `items`.
pub open spec fn holds_all<T, U: PartialEq<T>>(items: Seq<T>, expected: Seq<U>) -> bool {
    forall|k: int| 0 <= k < expected.len() ==> holds_equal(items, #[trigger] expected[k])
}

/// The two have the same length and equal items at each place.
pub open spec fn same_items<T, U: PartialEq<T>>(items: Seq<T>, expected: Seq<U>) -> bool {
    &&& items.len() == expected.len()
    &&& forall|i: int| 0 <= i < items.len() ==> (#[trigger] expected[i]).eq_spec(&items[i])
}

/// `found` is what looking for `expected` among `items` comes to: found
/// where some comparison came to equal, not found where all came to unequal.
pub open spec fn searched<T, U: PartialEq<T>>(items: Seq<T>, expected: U, found: bool) -> bool {
    if found {
        exists|i: int| 0 <= i < items.len() && compared(expected, #[trigger] items[i], true)
    } else {
        forall|i: int| 0 <= i < items.len() ==> compared(expected, #[trigger] items[i], false)
    }
}

/// `found` is what looking for each of `expected` among `items` comes to:
/// found where each was found, not found where one was not.
pub open spec fn searched_all<T, U: PartialEq<T>>(
    items: Seq<T>,
    expected: Seq<U>,
    found: bool,
) -> bool {
    if found {
        forall|k: int| 0 <= k < expected.len() ==> searched(items, #[trigger] expected[k], true)
    } else {
        exists|k: int| 0 <= k < expected.len() && searched(items, #[trigger] expected[k], false)
    }
}

/// `same` is what comparing the two place by place comes to: the same where
/// the lengths are equal and each comparison came to equal, not the same
/// where the lengths differ or one comparison came to unequal.
pub open spec fn compared_each<T, U: PartialEq<T>>(
    items: Seq<T>,
    expected: Seq<U>,
    same: bool,
) -> bool {
    if same {
        &&& items.len() == expected.len()
        &&& forall|i: int|
            0 <= i < items.len() ==> compared(#[trigger] expected[i], items[i], true)
    } else {
        ||| items.len() != expected.len()
        ||| exists|i: int|
            0 <= i < items.len() && i < expected.len() && compared(
                #[trigger] expected[i],
                items[i],
                false,
            )
    }
}

/// Whether some item of `items` equals `expected`.
pub fn contains_equal<T, U: PartialEq<T>>(items: &[T], expected: &U) -> (r: bool)
    ensures
        searched(items@, *expected, r),
        U::obeys_eq_spec() ==> r == holds_equal(items@, *expected),
{
    let mut i: usize = 0;
    while i < items.len()
        invariant
            i <= items.len(),
            forall|j: int| 0 <= j < i ==> compared(*expected, #[trigger] items@[j], false),
            U::obeys_eq_spec() ==> forall|j: int|
                0 <= j < i ==> !expected.eq_spec(&#[trigger] items@[j]),
        decreases items.len() - i,
    {
        if *expected == items[i] {
            return true;
        }
        i = i + 1;
    }
    false
}

/// Whether each of `expected` equals some item of `items`.
pub fn contains_all<T, U: PartialEq<T>>(items: &[T], expected: &[U]) -> (r: bool)
    ensures
        searched_all(items@, expected@, r),
        U::obeys_eq_spec() ==> r == holds_all(items@, expected@),
{
    let mut k: usize = 0;
    while k < expected.len()
        invariant
            k <= expected.len(),
            forall|j: int| 0 <= j < k ==> searched(items@, #[trigger] expected@[j], true),
            U::obeys_eq_spec() ==> forall|j: int|
                0 <= j < k ==> holds_equal(items@, #[trigger] expected@[j]),
        decreases expected.len() - k,
    {
        if !contains_equal(items, &expected[k]) {
            return false;
        }
        k = k + 1;
    }
    true
}

/// Whether the two have the same length and equal items at each place.
pub fn equal_items<T, U: PartialEq<T>>(items: &[T], expected: &[U]) -> (r: bool)
    ensures
        compared_each(items@, expected@, r),
        U::obeys_eq_spec() ==> r == same_items(items@, expected@),
{
    if items.len() != expected.len() {
        return false;
    }
    let mut i: usize = 0;
    while i < items.len()
        invariant
            i <= items.len(),
            items.len() == expected.len(),
            forall|j: int| 0 <= j < i ==> compared(#[trigger] expected@[j], items@[j], true),
            U::obeys_eq_spec() ==> forall|j: int|
                0 <= j < i ==> (#[trigger] expected@[j]).eq_spec(&items@[j]),
        decreases items.len() - i,
    {
        if !(expected[i] == items[i]) {
            return false;
        }
        i = i + 1;
    }
    true
}

/// The rendering of the expected collection in an equality check: lengths
/// that differ are pointed out.
pub fn rendered_collection(rendered: &str, same_length: bool) -> (r: String)
    ensures
        r@ == if same_length {
            rendered@
        } else {
            rendered@ + " (different lengths)"@
        },
{
    if same_length {
        String::from_str(rendered)
    } else {
        crate::text::followed_by(rendered, " (different lengths)")
    }
}

/// Trait for collection assertions.
pub trait CollectionMatchers<T> {
    fn to_be_empty(self) -> Self;

    fn to_have_length(self, expected: usize) -> Self;

    fn to_contain<U: PartialEq<T> + Debug>(self, expected: U) -> Self;

    fn to_contain_all_of<U: PartialEq<T> + Debug>(self, expected: &[U]) -> Self;

    fn to_equal_collection<U: PartialEq<T> + Debug>(self, expected: &[U]) -> Self;
}

/// Extension trait for adding helper methods to collections.
pub trait CollectionExtensions<T> {
    fn first(&self) -> Option<&T>;

    fn last(&self) -> Option<&T>;
}

impl<T> CollectionExtensions<T> for Vec<T> {
    fn first(&self) -> (r: Option<&T>)
        ensures
            r == if self@.len() == 0 {
                None
            } else {
                Some(&self@[0])
            },
    {
        if self.len() == 0 {
            None
        } else {
            Some(&self[0])
        }
    }

    fn last(&self) -> (r: Option<&T>)
        ensures
            r == if self@.len() == 0 {
                None
            } else {
                Some(&self@[self@.len() - 1])
            },
    {
        if self.len() == 0 {
            None
        } else {
            Some(&self[self.len() - 1])
        }
    }
}

impl<T> CollectionExtensions<T> for &[T] {
    fn first(&self) -> (r: Option<&T>)
        ensures
            r == if self@.len() == 0 {
                None
            } else {
                Some(&self@[0])
            },
    {
        if self.len() == 0 {
            None
        } else {
            Some(&self[0])
        }
    }

    fn last(&self) -> (r: Option<&T>)
        ensures
            r == if self@.len() == 0 {
                None
            } else {
                Some(&self@[self@.len() - 1])
            },
    {
        if self.len() == 0 {
            None
        } else {
            Some(&self[self.len() - 1])
        }
    }
}

impl<T: Debug + Clone + PartialEq> CollectionMatchers<T> for Assertion<&[T]> {
    fn to_be_empty(self) -> (r: Self)
        ensures
            r.value == self.value,
            r@ == appended(self@, plain_sentence("be"@, "empty"@), self.value@.len() == 0),
    {
        let result = self.value.len() == 0;
        self.add_step(AssertionSentence::new("be", "empty"), result)
    }

    fn to_have_length(self, expected: usize) -> (r: Self)
        ensures
            r.value == self.value,
            r@ == appended(
                self@,
                plain_sentence("have"@, numbered("length "@, expected)),
                self.value@.len() == expected,
            ),
    {
        let actual_length = self.value.len();
        let result = actual_length == expected;
        self.add_step(length_sentence("length ", expected), result)
    }

    fn to_contain<U: PartialEq<T> + Debug>(self, expected: U) -> (r: Self)
        ensures
            r.value == self.value,
            exists|found: bool|
                searched(self.value@, expected, found) && #[trigger] step_with_outcome(
                    self@,
                    r@,
                    "contain"@,
                    ""@,
                    found,
                ),
            U::obeys_eq_spec() ==> last_passed(r@) == (holds_equal(self.value@, expected)
                != self@.negated),
    {
        let result = contains_equal(self.value, &expected);
        let rendered = debug_text(&expected);
        let r = step_about(self, "contain", "", rendered.as_str(), result);
        proof {
            assert(r@ == after_step(self@, "contain"@, ""@, rendered@, result));
            assert(step_with_outcome(self@, r@, "contain"@, ""@, result));
        }
        r
    }

    fn to_contain_all_of<U: PartialEq<T> + Debug>(self, expected: &[U]) -> (r: Self)
        ensures
            r.value == self.value,
            exists|found: bool|
                searched_all(self.value@, expected@, found) && #[trigger] step_with_outcome(
                    self@,
                    r@,
                    "contain"@,
                    "all of "@,
                    found,
                ),
            U::obeys_eq_spec() ==> last_passed(r@) == (holds_all(self.value@, expected@)
                != self@.negated),
    {
        let result = contains_all(self.value, expected);
        let rendered = debug_text(&expected);
        let r = step_about(self, "contain", "all of ", rendered.as_str(), result);
        proof {
            assert(r@ == after_step(self@, "contain"@, "all of "@, rendered@, result));
            assert(step_with_outcome(self@, r@, "contain"@, "all of "@, result));
        }
        r
    }

    fn to_equal_collection<U: PartialEq<T> + Debug>(self, expected: &[U]) -> (r: Self)
        ensures
            r.value == self.value,
            exists|same: bool|
                compared_each(self.value@, expected@, same) && #[trigger] step_with_outcome(
                    self@,
                    r@,
                    "equal"@,
                    "collection "@,
                    same,
                ),
            U::obeys_eq_spec() ==> last_passed(r@) == (same_items(self.value@, expected@)
                != self@.negated),
    {
        let same_length = self.value.len() == expected.len();
        let result = equal_items(self.value, expected);
        let rendered = rendered_collection(debug_text(&expected).as_str(), same_length);
        let r = step_about(self, "equal", "collection ", rendered.as_str(), result);
        proof {
            assert(r@ == after_step(self@, "equal"@, "collection "@, rendered@, result));
            assert(step_with_outcome(self@, r@, "equal"@, "collection "@, result));
        }
        r
    }
}

// Add support for Vec<T> as reference
impl<T: Debug + Clone + PartialEq> CollectionMatchers<T> for Assertion<&Vec<T>> {
    fn to_be_empty(self) -> (r: Self)
        ensures
            r.value == self.value,
            r@ == appended(self@, plain_sentence("be"@, "empty"@), self.value@.len() == 0),
    {
        let result = self.value.as_slice().len() == 0;
        self.add_step(AssertionSentence::new("be", "empty"), result)
    }

    fn to_have_length(self, expected: usize) -> (r: Self)
        ensures
            r.value == self.value,
            r@ == appended(
                self@,
                plain_sentence("have"@, numbered("length "@, expected)),
                self.value@.len() == expected,
            ),
    {
        let actual_length = self.value.as_slice().len();
        let result = actual_length == expected;
        self.add_step(length_sentence("length ", expected), result)
    }

    fn to_contain<U: PartialEq<T> + Debug>(self, expected: U) -> (r: Self)
        ensures
            r.value == self.value,
            exists|found: bool|
                searched(self.value@, expected, found) && #[trigger] step_with_outcome(
                    self@,
                    r@,
                    "contain"@,
                    ""@,
                    found,
                ),
            U::obeys_eq_spec() ==> last_passed(r@) == (holds_equal(self.value@, expected)
                != self@.negated),
    {
        let result = contains_equal(self.value.as_slice(), &expected);
        let rendered = debug_text(&expected);
        let r = step_about(self, "contain", "", rendered.as_str(), result);
        proof {
            assert(r@ == after_step(self@, "contain"@, ""@, rendered@, result));
            assert(step_with_outcome(self@, r@, "contain"@, ""@, result));
        }
        r
    }

    fn to_contain_all_of<U: PartialEq<T> + Debug>(self, expected: &[U]) -> (r: Self)
        ensures
            r.value == self.value,
            exists|found: bool|
                searched_all(self.value@, expected@, found) && #[trigger] step_with_outcome(
                    self@,
                    r@,
                    "contain"@,
                    "all of "@,
                    found,
                ),
            U::obeys_eq_spec() ==> last_passed(r@) == (holds_all(self.value@, expected@)
                != self@.negated),
    {
        let result = contains_all(self.value.as_slice(), expected);
        let rendered = debug_text(&expected);
        let r = step_about(self, "contain", "all of ", rendered.as_str(), result);
        proof {
            assert(r@ == after_step(self@, "contain"@, "all of "@, rendered@, result));
            assert(step_with_outcome(self@, r@, "contain"@, "all of "@, result));
        }
        r
    }

    fn to_equal_collection<U: PartialEq<T> + Debug>(self, expected: &[U]) -> (r: Self)
        ensures
            r.value == self.value,
            exists|same: bool|
                compared_each(self.value@, expected@, same) && #[trigger] step_with_outcome(
                    self@,
                    r@,
                    "equal"@,
                    "collection "@,
                    same,
                ),
            U::obeys_eq_spec() ==> last_passed(r@) == (same_items(self.value@, expected@)
                != self@.negated),
    {
        let same_length = self.value.as_slice().len() == expected.len();
        let result = equal_items(self.value.as_slice(), expected);
        let rendered = rendered_collection(debug_text(&expected).as_str(), same_length);
        let r = step_about(self, "equal", "collection ", rendered.as_str(), result);
        proof {
            assert(r@ == after_step(self@, "equal"@, "collection "@, rendered@, result));
            assert(step_with_outcome(self@, r@, "equal"@, "collection "@, result));
        }
        r
    }
}

// Also add support for Vec<T> directly
impl<T: Debug + Clone + PartialEq> CollectionMatchers<T> for Assertion<Vec<T>> {
    fn to_be_empty(self) -> (r: Self)
        ensures
            cloned(self.value, r.value),
            r@ == appended(self@, plain_sentence("be"@, "empty"@), self.value@.len() == 0),
    {
        let result = self.value.as_slice().len() == 0;
        self.add_step(AssertionSentence::new("be", "empty"), result)
    }

    fn to_have_length(self, expected: usize) -> (r: Self)
        ensures
            cloned(self.value, r.value),
            r@ == appended(
                self@,
                plain_sentence("have"@, numbered("length "@, expected)),
                self.value@.len() == expected,
            ),
    {
        let actual_length = self.value.as_slice().len();
        let result = actual_length == expected;
        self.add_step(length_sentence("length ", expected), result)
    }

    fn to_contain<U: PartialEq<T> + Debug>(self, expected: U) -> (r: Self)
        ensures
            cloned(self.value, r.value),
            exists|found: bool|
                searched(self.value@, expected, found) && #[trigger] step_with_outcome(
                    self@,
                    r@,
                    "contain"@,
                    ""@,
                    found,
                ),
            U::obeys_eq_spec() ==> last_passed(r@) == (holds_equal(self.value@, expected)
                != self@.negated),
    {
        let result = contains_equal(self.value.as_slice(), &expected);
        let rendered = debug_text(&expected);
        let r = step_about(self, "contain", "", rendered.as_str(), result);
        proof {
            assert(r@ == after_step(self@, "contain"@, ""@, rendered@, result));
            assert(step_with_outcome(self@, r@, "contain"@, ""@, result));
        }
        r
    }

    fn to_contain_all_of<U: PartialEq<T> + Debug>(self, expected: &[U]) -> (r: Self)
        ensures
            cloned(self.value, r.value),
            exists|found: bool|
                searched_all(self.value@, expected@, found) && #[trigger] step_with_outcome(
                    self@,
                    r@,
                    "contain"@,
                    "all of "@,
                    found,
                ),
            U::obeys_eq_spec() ==> last_passed(r@) == (holds_all(self.value@, expected@)
                != self@.negated),
    {
        let result = contains_all(self.value.as_slice(), expected);
        let rendered = debug_text(&expected);
        let r = step_about(self, "contain", "all of ", rendered.as_str(), result);
        proof {
            assert(r@ == after_step(self@, "contain"@, "all of "@, rendered@, result));
            assert(step_with_outcome(self@, r@, "contain"@, "all of "@, result));
        }
        r
    }

    fn to_equal_collection<U: PartialEq<T> + Debug>(self, expected: &[U]) -> (r: Self)
        ensures
            cloned(self.value, r.value),
            exists|same: bool|
                compared_each(self.value@, expected@, same) && #[trigger] step_with_outcome(
                    self@,
                    r@,
                    "equal"@,
                    "collection "@,
                    same,
                ),
            U::obeys_eq_spec() ==> last_passed(r@) == (same_items(self.value@, expected@)
                != self@.negated),
    {
        let same_length = self.value.as_slice().len() == expected.len();
        let result = equal_items(self.value.as_slice(), expected);
        let rendered = rendered_collection(debug_text(&expected).as_str(), same_length);
        let r = step_about(self, "equal", "collection ", rendered.as_str(), result);
        proof {
            assert(r@ == after_step(self@, "equal"@, "collection "@, rendered@, result));
            assert(step_with_outcome(self@, r@, "equal"@, "collection "@, result));
        }
        r
    }
}

// Also add support for array references
impl<T: Debug + Clone + PartialEq, const N: usize> CollectionMatchers<T> for Assertion<&[T; N]> {
    fn to_be_empty(self) -> (r: Self)
        ensures
            r.value == self.value,
            r@ == appended(self@, plain_sentence("be"@, "empty"@), self.value@.len() == 0),
    {
        let result = self.value.as_slice().len() == 0;
        self.add_step(AssertionSentence::new("be", "empty"), result)
    }

    fn to_have_length(self, expected: usize) -> (r: Self)
        ensures
            r.value == self.value,
            r@ == appended(
                self@,
                plain_sentence("have"@, numbered("length "@, expected)),
                self.value@.len() == expected,
            ),
    {
        let actual_length = self.value.as_slice().len();
        let result = actual_length == expected;
        self.add_step(length_sentence("length ", expected), result)
    }

    fn to_contain<U: PartialEq<T> + Debug>(self, expected: U) -> (r: Self)
        ensures
            r.value == self.value,
            exists|found: bool|
                searched(self.value@, expected, found) && #[trigger] step_with_outcome(
                    self@,
                    r@,
                    "contain"@,
                    ""@,
                    found,
                ),
            U::obeys_eq_spec() ==> last_passed(r@) == (holds_equal(self.value@, expected)
                != self@.negated),
    {
        let result = contains_equal(self.value.as_slice(), &expected);
        let rendered = debug_text(&expected);
        let r = step_about(self, "contain", "", rendered.as_str(), result);
        proof {
            assert(r@ == after_step(self@, "contain"@, ""@, rendered@, result));
            assert(step_with_outcome(self@, r@, "contain"@, ""@, result));
        }
        r
    }

    fn to_contain_all_of<U: PartialEq<T> + Debug>(self, expected: &[U]) -> (r: Self)
        ensures
            r.value == self.value,
            exists|found: bool|
                searched_all(self.value@, expected@, found) && #[trigger] step_with_outcome(
                    self@,
                    r@,
                    "contain"@,
                    "all of "@,
                    found,
                ),
            U::obeys_eq_spec() ==> last_passed(r@) == (holds_all(self.value@, expected@)
                != self@.negated),
    {
        let result = contains_all(self.value.as_slice(), expected);
        let rendered = debug_text(&expected);
        let r = step_about(self, "contain", "all of ", rendered.as_str(), result);
        proof {
            assert(r@ == after_step(self@, "contain"@, "all of "@, rendered@, result));
            assert(step_with_outcome(self@, r@, "contain"@, "all of "@, result));
        }
        r
    }

    fn to_equal_collection<U: PartialEq<T> + Debug>(self, expected: &[U]) -> (r: Self)
        ensures
            r.value == self.value,
            exists|same: bool|
                compared_each(self.value@, expected@, same) && #[trigger] step_with_outcome(
                    self@,
                    r@,
                    "equal"@,
                    "collection "@,
                    same,
                ),
            U::obeys_eq_spec() ==> last_passed(r@) == (same_items(self.value@, expected@)
                != self@.negated),
    {
        let same_length = self.value.as_slice().len() == expected.len();
        let result = equal_items(self.value.as_slice(), expected);
        let rendered = rendered_collection(debug_text(&expected).as_str(), same_length);
        let r = step_about(self, "equal", "collection ", rendered.as_str(), result);
        proof {
            assert(r@ == after_step(self@, "equal"@, "collection "@, rendered@, result));
            assert(step_with_outcome(self@, r@, "equal"@, "collection "@, result));
        }
        r
    }
}

} // verus!
