//! Matchers for hash maps.
use crate::assertion::Assertion;
use crate::finality::appended;
use crate::matchers::common::{
    after_step, described_step, last_passed, length_sentence, numbered, step_about,
    step_with_outcome,
};
use crate::sentence::{plain_sentence, AssertionSentence};
use crate::text::debug_text;
use core::borrow::Borrow;
use core::fmt::Debug;
use core::hash::Hash;
use std::collections::HashMap;
use vstd::prelude::*;
use vstd::std_specs::cmp::PartialEqSpec;
use vstd::std_specs::hash::{
    contains_borrowed_key, maps_borrowed_key_to_value, obeys_key_model,
};
use vstd::string::*;

verus! {

/// Trait for hash map assertions.
pub trait HashMapMatchers<K, V> {
    fn to_be_empty(self) -> Self;

    fn to_have_length(self, expected: usize) -> Self;

    fn to_contain_key<Q>(self, key: &Q) -> Self where K: Borrow<Q>, Q: Hash + Eq + Debug + ?Sized;

    fn to_contain_entry<Q>(self, key: &Q, value: &V) -> Self where
        K: Borrow<Q>,
        Q: Hash + Eq + Debug + ?Sized,
        V: PartialEq;
}

/// `found` is what looking up `key` and comparing what the map holds under
/// it with `value` comes to: found where the map holds an equal value under
/// the key, not found where it holds nothing under the key or an unequal
/// value.
pub open spec fn entry_checked<K, V: PartialEq, Q: ?Sized>(
    m: Map<K, V>,
    key: &Q,
    value: V,
    found: bool,
) -> bool {
    if found {
        exists|held: V| #[trigger] maps_borrowed_key_to_value(m, key, held) && held.eq_spec(&value)
    } else {
        ||| !contains_borrowed_key(m, key)
        ||| exists|held: V|
            #[trigger] maps_borrowed_key_to_value(m, key, held) && !held.eq_spec(&value)
    }
}

/// A rendered key and a rendered value as the inside and end of "(key, value)".
pub fn rendered_entry(key: &str, value: &str) -> (r: String)
    ensures
        r@ == key@ + ", "@ + value@ + ")"@,
{
    let mut r = String::from_str(key);
    r.append(", ");
    r.append(value);
    r.append(")");
    r
}

impl<K, V> HashMapMatchers<K, V> for Assertion<&HashMap<K, V>> where
    K: Hash + Eq + Debug + Clone,
    V: Debug + Clone,
 {
    fn to_be_empty(self) -> (r: Self)
        ensures
            r.value == self.value,
            r@ == appended(self@, plain_sentence("be"@, "empty"@), self.value@.is_empty()),
    {
        let result = self.value.is_empty();
        self.add_step(AssertionSentence::new("be", "empty"), result)
    }

    fn to_have_length(self, expected: usize) -> (r: Self)
        ensures
            r.value == self.value,
            r@ == appended(
                self@,
                plain_sentence("have"@, numbered("length "@, expected)),
                self.value.len() == expected,
            ),
    {
        let actual_length = self.value.len();
        let result = actual_length == expected;
        self.add_step(length_sentence("length ", expected), result)
    }

    fn to_contain_key<Q>(self, key: &Q) -> (r: Self) where
        K: Borrow<Q>,
        Q: Hash + Eq + Debug + ?Sized,

        ensures
            r.value == self.value,
            described_step(self@, r@, "contain"@, "key "@),
            obeys_key_model::<K>() ==> last_passed(r@) == (contains_borrowed_key(
                self.value@,
                key,
            ) != self@.negated),
    {
        let result = self.value.contains_key(key);
        let rendered = debug_text(key);
        let r = step_about(self, "contain", "key ", rendered.as_str(), result);
        proof {
            assert(r@ == after_step(self@, "contain"@, "key "@, rendered@, result));
            assert(step_with_outcome(self@, r@, "contain"@, "key "@, result));
        }
        r
    }

    fn to_contain_entry<Q>(self, key: &Q, value: &V) -> (r: Self) where
        K: Borrow<Q>,
        Q: Hash + Eq + Debug + ?Sized,
        V: PartialEq,

        ensures
            r.value == self.value,
            described_step(self@, r@, "contain"@, "entry ("@),
            obeys_key_model::<K>() && V::obeys_eq_spec() ==> entry_checked(
                self.value@,
                key,
                *value,
                last_passed(r@) != self@.negated,
            ),
    {
        let result = match self.value.get(key) {
            Some(held) => {
                let equal = *held == *value;
                proof {
                    if obeys_key_model::<K>() && V::obeys_eq_spec() {
                        assert(maps_borrowed_key_to_value(self.value@, key, *held));
                    }
                }
                equal
            },
            None => false,
        };
        let rendered = rendered_entry(debug_text(key).as_str(), debug_text(value).as_str());
        let r = step_about(self, "contain", "entry (", rendered.as_str(), result);
        proof {
            assert(r@ == after_step(self@, "contain"@, "entry ("@, rendered@, result));
            assert(step_with_outcome(self@, r@, "contain"@, "entry ("@, result));
        }
        r
    }
}

// Implementation for owned HashMap
impl<K, V> HashMapMatchers<K, V> for Assertion<HashMap<K, V>> where
    K: Hash + Eq + Debug + Clone,
    V: Debug + Clone,
 {
    fn to_be_empty(self) -> (r: Self)
        ensures
            cloned(self.value, r.value),
            r@ == appended(self@, plain_sentence("be"@, "empty"@), self.value@.is_empty()),
    {
        let result = self.value.is_empty();
        self.add_step(AssertionSentence::new("be", "empty"), result)
    }

    fn to_have_length(self, expected: usize) -> (r: Self)
        ensures
            cloned(self.value, r.value),
            r@ == appended(
                self@,
                plain_sentence("have"@, numbered("length "@, expected)),
                self.value.len() == expected,
            ),
    {
        let actual_length = self.value.len();
        let result = actual_length == expected;
        self.add_step(length_sentence("length ", expected), result)
    }

    fn to_contain_key<Q>(self, key: &Q) -> (r: Self) where
        K: Borrow<Q>,
        Q: Hash + Eq + Debug + ?Sized,

        ensures
            cloned(self.value, r.value),
            described_step(self@, r@, "contain"@, "key "@),
            obeys_key_model::<K>() ==> last_passed(r@) == (contains_borrowed_key(
                self.value@,
                key,
            ) != self@.negated),
    {
        let result = self.value.contains_key(key);
        let rendered = debug_text(key);
        let r = step_about(self, "contain", "key ", rendered.as_str(), result);
        proof {
            assert(r@ == after_step(self@, "contain"@, "key "@, rendered@, result));
            assert(step_with_outcome(self@, r@, "contain"@, "key "@, result));
        }
        r
    }

    fn to_contain_entry<Q>(self, key: &Q, value: &V) -> (r: Self) where
        K: Borrow<Q>,
        Q: Hash + Eq + Debug + ?Sized,
        V: PartialEq,

        ensures
            cloned(self.value, r.value),
            described_step(self@, r@, "contain"@, "entry ("@),
            obeys_key_model::<K>() && V::obeys_eq_spec() ==> entry_checked(
                self.value@,
                key,
                *value,
                last_passed(r@) != self@.negated,
            ),
    {
        let result = match self.value.get(key) {
            Some(held) => {
                let equal = *held == *value;
                proof {
                    if obeys_key_model::<K>() && V::obeys_eq_spec() {
                        assert(maps_borrowed_key_to_value(self.value@, key, *held));
                    }
                }
                equal
            },
            None => false,
        };
        let rendered = rendered_entry(debug_text(key).as_str(), debug_text(value).as_str());
        let r = step_about(self, "contain", "entry (", rendered.as_str(), result);
        proof {
            assert(r@ == after_step(self@, "contain"@, "entry ("@, rendered@, result));
            assert(step_with_outcome(self@, r@, "contain"@, "entry ("@, result));
        }
        r
    }
}

} // verus!
