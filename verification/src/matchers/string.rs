//! Matchers for strings.
use crate::assertion::Assertion;
use crate::expectation::Expectation;
use crate::finality::appended;
use crate::matchers::common::{length_sentence, numbered, quoted, sentence_quoting};
use crate::sentence::{plain_sentence, AssertionSentence};
use crate::text::{contains, ends_with, has_infix, has_prefix, has_suffix, starts_with};
use vstd::prelude::*;
use vstd::string::*;

verus! {

/// Trusted: the type `regex::Regex`, a compiled regular expression. Verus
/// sees nothing inside it.
#[verifier::external_type_specification]
#[verifier::external_body]
pub struct ExRegex(regex::Regex);

/// Trusted: the type `regex::Error`, which says why a pattern did not
/// compile. Verus sees nothing inside it.
#[verifier::external_type_specification]
#[verifier::external_body]
pub struct ExRegexError(regex::Error);

/// What `Regex::new` makes of a pattern: the compiled expression, or the
/// error for a pattern that is invalid or too large.
pub uninterp spec fn compiled(pattern: Seq<char>) -> Result<regex::Regex, regex::Error>;

/// Whether a compiled expression matches somewhere in a text, as
/// `Regex::is_match` finds it.
pub uninterp spec fn regex_matches(re: regex::Regex, text: Seq<char>) -> bool;

/// Whether a pattern compiles.
pub open spec fn pattern_compiles(pattern: Seq<char>) -> bool {
    compiled(pattern) is Ok
}

/// Whether the expression that a pattern compiles to matches somewhere in a
/// text.
pub open spec fn pattern_matches(pattern: Seq<char>, text: Seq<char>) -> bool {
    compiled(pattern) matches Ok(re) && regex_matches(re, text)
}

/// Trusted: `regex::Regex::new`. It compiles a pattern, or returns an error
/// for one that is invalid or too large. What it returns depends on the
/// pattern alone; the contract gives it the name `compiled` and claims
/// nothing else.
#[verifier::external_body]
fn compile(pattern: &str) -> (r: Result<regex::Regex, regex::Error>)
    ensures
        r == compiled(pattern@),
{
    regex::Regex::new(pattern)
}

/// Trusted: `regex::Regex::is_match`. It says whether the expression matches
/// anywhere in the text. The answer depends on the expression and the text
/// alone; the contract gives it the name `regex_matches` and claims nothing
/// else.
#[verifier::external_body]
fn is_match(re: &regex::Regex, text: &str) -> (r: bool)
    ensures
        r == regex_matches(*re, text@),
{
    re.is_match(text)
}

/// The length of a text in bytes of UTF-8.
pub open spec fn byte_length(s: Seq<char>) -> nat {
    vstd::utf8::encode_utf8(s).len()
}

/// The sentence and raw outcome of a regular-expression check. A pattern
/// that does not compile gives a step that fails whether negated or not.
pub open spec fn regex_check(
    before: crate::finality::ChainState,
    pattern: Seq<char>,
    text: Seq<char>,
) -> crate::finality::ChainState {
    if pattern_compiles(pattern) {
        appended(
            before,
            plain_sentence("match"@, "pattern "@ + quoted(pattern)),
            pattern_matches(pattern, text),
        )
    } else {
        appended(
            before,
            plain_sentence("match"@, "regex "@ + quoted(pattern) + " (INVALID REGEX)"@),
            before.negated,
        )
    }
}

/// The sentence of a check against a pattern that did not compile.
pub fn invalid_regex_sentence(pattern: &str) -> (r: AssertionSentence)
    ensures
        r@ == plain_sentence("match"@, "regex "@ + quoted(pattern@) + " (INVALID REGEX)"@),
{
    let mut object = String::from_str("regex ");
    object.push('"');
    object.append(pattern);
    object.push('"');
    object.append(" (INVALID REGEX)");
    assert(object@ =~= "regex "@ + quoted(pattern@) + " (INVALID REGEX)"@);
    AssertionSentence::new("match", object.as_str())
}

/// The step of a regular-expression check, given what compiling the pattern
/// and matching the text came to: `outcome` is `None` for a pattern that did
/// not compile, and else whether the text matched.
pub fn regex_step<T: Clone>(assertion: Assertion<T>, pattern: &str, outcome: Option<bool>) -> (r:
    Assertion<T>)
    ensures
        cloned(assertion.value, r.value),
        r@ == match outcome {
            Some(matched) => appended(
                assertion@,
                plain_sentence("match"@, "pattern "@ + quoted(pattern@)),
                matched,
            ),
            None => appended(
                assertion@,
                plain_sentence("match"@, "regex "@ + quoted(pattern@) + " (INVALID REGEX)"@),
                assertion@.negated,
            ),
        },
{
    match outcome {
        Some(matched) => assertion.add_step(sentence_quoting("match", "pattern ", pattern), matched),
        None => {
            let never = assertion.negated;
            assertion.add_step(invalid_regex_sentence(pattern), never)
        },
    }
}

/// Whether `pattern` matches somewhere in `text`; `None` for a pattern that
/// does not compile.
pub fn match_pattern(pattern: &str, text: &str) -> (r: Option<bool>)
    ensures
        r == if pattern_compiles(pattern@) {
            Some(pattern_matches(pattern@, text@))
        } else {
            None
        },
{
    match compile(pattern) {
        Ok(re) => Some(is_match(&re, text)),
        Err(_) => None,
    }
}

/// Trait for string assertions.
pub trait StringMatchers {
    fn to_be_empty(self) -> Self;

    fn to_have_length(self, expected: usize) -> Self;

    fn to_have_length_greater_than(self, length: usize) -> Self;

    fn to_have_length_less_than(self, length: usize) -> Self;

    /// Check if the string contains a substring
    fn to_contain(self, substring: &str) -> Self;

    /// Type-specific version of to_contain to avoid trait conflicts
    fn to_contain_substring(self, substring: &str) -> Self;

    fn to_start_with(self, prefix: &str) -> Self;

    fn to_end_with(self, suffix: &str) -> Self;

    /// Check if the string contains the pattern as it stands
    fn to_match(self, pattern: &str) -> Self;

    /// Check if the string matches a regular expression
    fn to_match_regex(self, pattern: &str) -> Self;
}

/// Emptiness check for expectations on strings.
pub trait StringExt {
    fn to_be_empty(self) -> Self;
}

impl StringMatchers for Assertion<String> {
    fn to_be_empty(self) -> (r: Self)
        ensures
            r.value@ == self.value@,
            r@ == appended(self@, plain_sentence("be"@, "empty"@), self.value@.len() == 0),
    {
        let result = self.value.as_str().is_empty();
        self.add_step(AssertionSentence::new("be", "empty"), result)
    }

    fn to_have_length(self, expected: usize) -> (r: Self)
        ensures
            r.value@ == self.value@,
            r@ == appended(
                self@,
                plain_sentence("have"@, numbered("length "@, expected)),
                byte_length(self.value@) == expected,
            ),
    {
        let actual_length = self.value.as_str().as_bytes().len();
        let result = actual_length == expected;
        self.add_step(length_sentence("length ", expected), result)
    }

    fn to_have_length_greater_than(self, length: usize) -> (r: Self)
        ensures
            r.value@ == self.value@,
            r@ == appended(
                self@,
                plain_sentence("have"@, numbered("length greater than "@, length)),
                byte_length(self.value@) > length,
            ),
    {
        let actual_length = self.value.as_str().as_bytes().len();
        let result = actual_length > length;
        self.add_step(length_sentence("length greater than ", length), result)
    }

    fn to_have_length_less_than(self, length: usize) -> (r: Self)
        ensures
            r.value@ == self.value@,
            r@ == appended(
                self@,
                plain_sentence("have"@, numbered("length less than "@, length)),
                byte_length(self.value@) < length,
            ),
    {
        let actual_length = self.value.as_str().as_bytes().len();
        let result = actual_length < length;
        self.add_step(length_sentence("length less than ", length), result)
    }

    fn to_contain(self, substring: &str) -> (r: Self)
        ensures
            r.value@ == self.value@,
            r@ == appended(
                self@,
                plain_sentence("contain"@, quoted(substring@)),
                has_infix(self.value@, substring@),
            ),
    {
        self.to_contain_substring(substring)
    }

    fn to_contain_substring(self, substring: &str) -> (r: Self)
        ensures
            r.value@ == self.value@,
            r@ == appended(
                self@,
                plain_sentence("contain"@, quoted(substring@)),
                has_infix(self.value@, substring@),
            ),
    {
        let result = contains(self.value.as_str(), substring);
        let sentence = sentence_quoting("contain", "", substring);
        proof {
            reveal_strlit("");
        }
        self.add_step(sentence, result)
    }

    fn to_start_with(self, prefix: &str) -> (r: Self)
        ensures
            r.value@ == self.value@,
            r@ == appended(
                self@,
                plain_sentence("start with"@, quoted(prefix@)),
                has_prefix(self.value@, prefix@),
            ),
    {
        let result = starts_with(self.value.as_str(), prefix);
        let sentence = sentence_quoting("start with", "", prefix);
        proof {
            reveal_strlit("");
        }
        self.add_step(sentence, result)
    }

    fn to_end_with(self, suffix: &str) -> (r: Self)
        ensures
            r.value@ == self.value@,
            r@ == appended(
                self@,
                plain_sentence("end with"@, quoted(suffix@)),
                has_suffix(self.value@, suffix@),
            ),
    {
        let result = ends_with(self.value.as_str(), suffix);
        let sentence = sentence_quoting("end with", "", suffix);
        proof {
            reveal_strlit("");
        }
        self.add_step(sentence, result)
    }

    fn to_match(self, pattern: &str) -> (r: Self)
        ensures
            r.value@ == self.value@,
            r@ == appended(
                self@,
                plain_sentence("match"@, "pattern "@ + quoted(pattern@)),
                has_infix(self.value@, pattern@),
            ),
    {
        let result = contains(self.value.as_str(), pattern);
        self.add_step(sentence_quoting("match", "pattern ", pattern), result)
    }

    fn to_match_regex(self, pattern: &str) -> (r: Self)
        ensures
            r.value@ == self.value@,
            r@ == regex_check(self@, pattern@, self.value@),
    {
        let outcome = match_pattern(pattern, self.value.as_str());
        regex_step(self, pattern, outcome)
    }
}

// Implement for &str references
impl StringMatchers for Assertion<&str> {
    fn to_be_empty(self) -> (r: Self)
        ensures
            r.value@ == self.value@,
            r@ == appended(self@, plain_sentence("be"@, "empty"@), self.value@.len() == 0),
    {
        let result = self.value.is_empty();
        self.add_step(AssertionSentence::new("be", "empty"), result)
    }

    fn to_have_length(self, expected: usize) -> (r: Self)
        ensures
            r.value@ == self.value@,
            r@ == appended(
                self@,
                plain_sentence("have"@, numbered("length "@, expected)),
                byte_length(self.value@) == expected,
            ),
    {
        let actual_length = self.value.as_bytes().len();
        let result = actual_length == expected;
        self.add_step(length_sentence("length ", expected), result)
    }

    fn to_have_length_greater_than(self, length: usize) -> (r: Self)
        ensures
            r.value@ == self.value@,
            r@ == appended(
                self@,
                plain_sentence("have"@, numbered("length greater than "@, length)),
                byte_length(self.value@) > length,
            ),
    {
        let actual_length = self.value.as_bytes().len();
        let result = actual_length > length;
        self.add_step(length_sentence("length greater than ", length), result)
    }

    fn to_have_length_less_than(self, length: usize) -> (r: Self)
        ensures
            r.value@ == self.value@,
            r@ == appended(
                self@,
                plain_sentence("have"@, numbered("length less than "@, length)),
                byte_length(self.value@) < length,
            ),
    {
        let actual_length = self.value.as_bytes().len();
        let result = actual_length < length;
        self.add_step(length_sentence("length less than ", length), result)
    }

    fn to_contain(self, substring: &str) -> (r: Self)
        ensures
            r.value@ == self.value@,
            r@ == appended(
                self@,
                plain_sentence("contain"@, quoted(substring@)),
                has_infix(self.value@, substring@),
            ),
    {
        self.to_contain_substring(substring)
    }

    fn to_contain_substring(self, substring: &str) -> (r: Self)
        ensures
            r.value@ == self.value@,
            r@ == appended(
                self@,
                plain_sentence("contain"@, quoted(substring@)),
                has_infix(self.value@, substring@),
            ),
    {
        let result = contains(self.value, substring);
        let sentence = sentence_quoting("contain", "", substring);
        proof {
            reveal_strlit("");
        }
        self.add_step(sentence, result)
    }

    fn to_start_with(self, prefix: &str) -> (r: Self)
        ensures
            r.value@ == self.value@,
            r@ == appended(
                self@,
                plain_sentence("start with"@, quoted(prefix@)),
                has_prefix(self.value@, prefix@),
            ),
    {
        let result = starts_with(self.value, prefix);
        let sentence = sentence_quoting("start with", "", prefix);
        proof {
            reveal_strlit("");
        }
        self.add_step(sentence, result)
    }

    fn to_end_with(self, suffix: &str) -> (r: Self)
        ensures
            r.value@ == self.value@,
            r@ == appended(
                self@,
                plain_sentence("end with"@, quoted(suffix@)),
                has_suffix(self.value@, suffix@),
            ),
    {
        let result = ends_with(self.value, suffix);
        let sentence = sentence_quoting("end with", "", suffix);
        proof {
            reveal_strlit("");
        }
        self.add_step(sentence, result)
    }

    fn to_match(self, pattern: &str) -> (r: Self)
        ensures
            r.value@ == self.value@,
            r@ == appended(
                self@,
                plain_sentence("match"@, "pattern "@ + quoted(pattern@)),
                has_infix(self.value@, pattern@),
            ),
    {
        let result = contains(self.value, pattern);
        self.add_step(sentence_quoting("match", "pattern ", pattern), result)
    }

    fn to_match_regex(self, pattern: &str) -> (r: Self)
        ensures
            r.value@ == self.value@,
            r@ == regex_check(self@, pattern@, self.value@),
    {
        let outcome = match_pattern(pattern, self.value);
        regex_step(self, pattern, outcome)
    }
}

impl StringExt for Expectation<String> {
    fn to_be_empty(self) -> (r: Self)
        ensures
            r.value@ == self.value@,
            r@ == appended(self@, plain_sentence("be"@, "empty"@), self.value@.len() == 0),
    {
        let result = self.value.as_str().is_empty();
        self.add_assertion_step(AssertionSentence::new("be", "empty"), result)
    }
}

impl StringExt for Expectation<&str> {
    fn to_be_empty(self) -> (r: Self)
        ensures
            r.value@ == self.value@,
            r@ == appended(self@, plain_sentence("be"@, "empty"@), self.value@.len() == 0),
    {
        let result = self.value.is_empty();
        self.add_assertion_step(AssertionSentence::new("be", "empty"), result)
    }
}

} // verus!
