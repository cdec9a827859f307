//! What the matchers share: the shapes of their sentences and of the steps
//! they append.
use crate::assertion::Assertion;
use crate::finality::{appended, ChainState};
use crate::sentence::{plain_sentence, AssertionSentence};
use crate::text::{decimal, followed_by, unsigned_text};
use vstd::prelude::*;
use vstd::string::*;

verus! {

/// A text between double quotes.
pub open spec fn quoted(s: Seq<char>) -> Seq<char> {
    seq!['"'] + s + seq!['"']
}

/// The chain after a step whose object is `prefix` followed by `rendered`.
pub open spec fn after_step(
    before: ChainState,
    verb: Seq<char>,
    prefix: Seq<char>,
    rendered: Seq<char>,
    outcome: bool,
) -> ChainState {
    appended(before, plain_sentence(verb, prefix + rendered), outcome)
}

/// `after` is `before` with one more step of the given outcome: its sentence
/// has the given verb and an object that starts with `prefix` and goes on
/// with some rendering of a value.
pub open spec fn step_with_outcome(
    before: ChainState,
    after: ChainState,
    verb: Seq<char>,
    prefix: Seq<char>,
    outcome: bool,
) -> bool {
    exists|rendered: Seq<char>|
        after == #[trigger] after_step(before, verb, prefix, rendered, outcome)
}

/// `after` is `before` with one more step: its sentence has the given verb
/// and an object that starts with `prefix` and goes on with some rendering
/// of a value; its outcome is not said.
pub open spec fn described_step(
    before: ChainState,
    after: ChainState,
    verb: Seq<char>,
    prefix: Seq<char>,
) -> bool {
    exists|outcome: bool| #[trigger] step_with_outcome(before, after, verb, prefix, outcome)
}

/// `equal` is what comparing `a` with `b` comes to.
pub open spec fn compared<T, U: PartialEq<T>>(a: U, b: T, equal: bool) -> bool {
    call_ensures(U::eq, (&a, &b), equal)
}

/// `after` is `before` with one more step, whose outcome is what comparing
/// `a` with `b` came to.
pub open spec fn compared_step<T, U: PartialEq<T>>(
    before: ChainState,
    after: ChainState,
    verb: Seq<char>,
    prefix: Seq<char>,
    a: U,
    b: T,
) -> bool {
    exists|equal: bool|
        compared(a, b, equal) && #[trigger] step_with_outcome(before, after, verb, prefix, equal)
}

/// Whether the last step of a chain with steps passed.
pub open spec fn last_passed(c: ChainState) -> bool {
    c.steps.last().passed
}

/// The sentence whose object is `prefix` followed by `rendered`.
pub fn sentence_about(verb: &str, prefix: &str, rendered: &str) -> (r: AssertionSentence)
    ensures
        r@ == plain_sentence(verb@, prefix@ + rendered@),
{
    let object = followed_by(prefix, rendered);
    AssertionSentence::new(verb, object.as_str())
}

/// The sentence whose object is `prefix` followed by `text` in double quotes.
pub fn sentence_quoting(verb: &str, prefix: &str, text: &str) -> (r: AssertionSentence)
    ensures
        r@ == plain_sentence(verb@, prefix@ + quoted(text@)),
{
    let mut object = String::from_str(prefix);
    object.push('"');
    object.append(text);
    object.push('"');
    assert(object@ =~= prefix@ + quoted(text@));
    AssertionSentence::new(verb, object.as_str())
}

/// A text followed by a number in decimal.
pub open spec fn numbered(text: Seq<char>, n: usize) -> Seq<char> {
    text + decimal(n as nat)
}

/// The step of a check against a value, given how the value renders and what
/// the check found.
pub fn step_about<T: Clone>(
    assertion: Assertion<T>,
    verb: &str,
    prefix: &str,
    rendered: &str,
    outcome: bool,
) -> (r: Assertion<T>)
    ensures
        cloned(assertion.value, r.value),
        r@ == after_step(assertion@, verb@, prefix@, rendered@, outcome),
{
    assertion.add_step(sentence_about(verb, prefix, rendered), outcome)
}

/// The sentence "have length <n>", with `relation` before the number.
pub fn length_sentence(relation: &str, expected: usize) -> (r: AssertionSentence)
    ensures
        r@ == plain_sentence("have"@, numbered(relation@, expected)),
{
    let object = followed_by(relation, unsigned_text(expected as u64).as_str());
    AssertionSentence::new("have", object.as_str())
}

} // verus!
