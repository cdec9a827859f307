//! The sentence of one assertion: subject, verb, object and qualifiers, and
//! the two ways of rendering it as a phrase.
use crate::text::{
    chars_of, ends_with, find_char, first_index_of, followed_by, has_suffix, lowercase_of, text_of,
    to_lowercase,
};
use vstd::prelude::*;
use vstd::string::*;

verus! {

/// Represents a complete sentence structure for an assertion.
#[derive(Debug)]
pub struct AssertionSentence {
    /// The subject of the assertion (usually the variable name)
    pub subject: String,
    /// The verb of the assertion, in the infinitive (e.g. "be", "have", "contain")
    pub verb: String,
    /// The object of the assertion (e.g. "greater than 42", "of length 5")
    pub object: String,
    /// Optional qualifiers for the assertion (e.g. "within tolerance")
    pub qualifiers: Vec<String>,
    /// Whether the assertion is negated
    pub negated: bool,
}

/// The mathematical content of an [`AssertionSentence`].
pub struct SentenceView {
    pub subject: Seq<char>,
    pub verb: Seq<char>,
    pub object: Seq<char>,
    pub qualifiers: Seq<Seq<char>>,
    pub negated: bool,
}

impl View for AssertionSentence {
    type V = SentenceView;

    open spec fn view(&self) -> SentenceView {
        SentenceView {
            subject: self.subject@,
            verb: self.verb@,
            object: self.object@,
            qualifiers: self.qualifiers.deep_view(),
            negated: self.negated,
        }
    }
}

/// The sentence that a matcher builds: a verb and an object, nothing else.
pub open spec fn plain_sentence(verb: Seq<char>, object: Seq<char>) -> SentenceView {
    SentenceView { subject: Seq::empty(), verb, object, qualifiers: Seq::empty(), negated: false }
}

/// The parts joined by single spaces.
pub open spec fn spaced(parts: Seq<Seq<char>>) -> Seq<char>
    decreases parts.len(),
{
    if parts.len() == 0 {
        Seq::empty()
    } else {
        let init = parts.take(parts.len() - 1);
        let last = parts[parts.len() - 1];
        if init.len() == 0 {
            last
        } else {
            spaced(init) + seq![' '] + last
        }
    }
}

/// Verb and object, with "not " in front when negated, followed by the
/// qualifiers where there are any.
pub open spec fn phrase(
    negated: bool,
    verb: Seq<char>,
    object: Seq<char>,
    qualifiers: Seq<Seq<char>>,
) -> Seq<char> {
    let head = if negated {
        "not "@ + verb + seq![' '] + object
    } else {
        verb + seq![' '] + object
    };
    if qualifiers.len() == 0 {
        head
    } else {
        head + seq![' '] + spaced(qualifiers)
    }
}

/// A sentence as it is worded: its verb, then its object where it has one,
/// then its qualifiers. The negation flag does not show; a negation is part
/// of the wording where the one who worded the sentence put it there.
pub open spec fn wording(s: SentenceView) -> Seq<char> {
    let head = if s.object.len() == 0 {
        s.verb
    } else {
        s.verb + seq![' '] + s.object
    };
    if s.qualifiers.len() == 0 {
        head
    } else {
        head + seq![' '] + spaced(s.qualifiers)
    }
}

/// The raw rendering of a sentence, without its subject.
pub open spec fn sentence_text(s: SentenceView) -> Seq<char> {
    phrase(s.negated, s.verb, s.object, s.qualifiers)
}

/// `s` without its leading `&` characters.
pub open spec fn without_refs(s: Seq<char>) -> Seq<char>
    decreases s.len(),
{
    if s.len() > 0 && s[0] == '&' {
        without_refs(s.drop_first())
    } else {
        s
    }
}

/// The variable an expression starts from: leading `&` are dropped, then the
/// text is cut at the first `.`, or else at the first `[`.
pub open spec fn base_name(expr: Seq<char>) -> Seq<char> {
    let bare = without_refs(expr);
    match first_index_of(bare, '.') {
        Some(i) => bare.take(i),
        None => match first_index_of(bare, '[') {
            Some(i) => bare.take(i),
            None => bare,
        },
    }
}

/// The fixed list of pluralized nouns that count as plural whatever their
/// ending. `lowered` is the name in lower case.
pub open spec fn is_common_plural(lowered: Seq<char>) -> bool {
    ||| lowered == "items"@
    ||| lowered == "elements"@
    ||| lowered == "values"@
    ||| lowered == "arrays"@
    ||| lowered == "lists"@
    ||| lowered == "maps"@
    ||| lowered == "sets"@
    ||| lowered == "objects"@
    ||| lowered == "attributes"@
    ||| lowered == "properties"@
    ||| lowered == "entries"@
    ||| lowered == "keys"@
    ||| lowered == "numbers"@
    ||| lowered == "strings"@
    ||| lowered == "data"@
    ||| lowered == "results"@
    ||| lowered == "options"@
    ||| lowered == "errors"@
    ||| lowered == "children"@
}

/// A name that ends in -s, -es or -ies.
pub open spec fn has_plural_ending(name: Seq<char>) -> bool {
    has_suffix(name, "s"@) || has_suffix(name, "es"@) || has_suffix(name, "ies"@)
}

/// Whether a subject reads as a plural: its base name has a plural ending or,
/// in lower case, is one of the common plurals.
pub open spec fn is_plural(subject: Seq<char>) -> bool {
    let base = base_name(subject);
    has_plural_ending(base) || is_common_plural(lowercase_of(base))
}

/// A regular verb that takes -es in the third person singular.
pub open spec fn takes_es(verb: Seq<char>) -> bool {
    ||| has_suffix(verb, "s"@)
    ||| has_suffix(verb, "x"@)
    ||| has_suffix(verb, "z"@)
    ||| has_suffix(verb, "sh"@)
    ||| has_suffix(verb, "ch"@)
}

/// A regular verb whose final -y becomes -ies: it ends in y, but not in a
/// vowel and y.
pub open spec fn takes_ies(verb: Seq<char>) -> bool {
    &&& has_suffix(verb, "y"@)
    &&& !has_suffix(verb, "ay"@)
    &&& !has_suffix(verb, "ey"@)
    &&& !has_suffix(verb, "oy"@)
    &&& !has_suffix(verb, "uy"@)
}

/// The verb in agreement with a singular or plural subject.
pub open spec fn conjugated(verb: Seq<char>, plural: bool) -> Seq<char> {
    if verb == "be"@ {
        if plural { "are"@ } else { "is"@ }
    } else if verb == "have"@ {
        if plural { "have"@ } else { "has"@ }
    } else if verb == "contain"@ {
        if plural { "contain"@ } else { "contains"@ }
    } else if plural {
        verb
    } else if takes_es(verb) {
        verb + "es"@
    } else if takes_ies(verb) {
        verb.take(verb.len() - 1) + "ies"@
    } else {
        verb + "s"@
    }
}

/// The rendering of a sentence whose verb agrees with `subject`.
pub open spec fn conjugated_text(s: SentenceView, subject: Seq<char>) -> Seq<char> {
    phrase(s.negated, conjugated(s.verb, is_plural(subject)), s.object, s.qualifiers)
}

/// Whether `lowered`, a name already in lower case, is one of the common
/// plurals.
pub fn is_in_common_plurals(lowered: &str) -> (r: bool)
    ensures
        r == is_common_plural(lowered@),
{
    lowered.eq("items")
        || lowered.eq("elements")
        || lowered.eq("values")
        || lowered.eq("arrays")
        || lowered.eq("lists")
        || lowered.eq("maps")
        || lowered.eq("sets")
        || lowered.eq("objects")
        || lowered.eq("attributes")
        || lowered.eq("properties")
        || lowered.eq("entries")
        || lowered.eq("keys")
        || lowered.eq("numbers")
        || lowered.eq("strings")
        || lowered.eq("data")
        || lowered.eq("results")
        || lowered.eq("options")
        || lowered.eq("errors")
        || lowered.eq("children")
}

/// The parts joined by single spaces.
pub fn join_spaced(parts: &Vec<String>) -> (r: String)
    ensures
        r@ == spaced(parts.deep_view()),
{
    let mut r = String::new();
    let mut i: usize = 0;
    let ghost all = parts.deep_view();
    while i < parts.len()
        invariant
            i <= parts.len(),
            all == parts.deep_view(),
            r@ == spaced(all.take(i as int)),
        decreases parts.len() - i,
    {
        if i > 0 {
            r.push(' ');
        }
        r.append(parts[i].as_str());
        proof {
            let next = all.take(i as int + 1);
            assert(next.take(next.len() - 1) =~= all.take(i as int));
        }
        i = i + 1;
    }
    proof {
        assert(all.take(parts.len() as int) =~= all);
    }
    r
}

/// Verb and object, with "not " in front when negated, followed by the
/// qualifiers where there are any.
fn render(negated: bool, verb: &str, object: &str, qualifiers: &Vec<String>) -> (r: String)
    ensures
        r@ == phrase(negated, verb@, object@, qualifiers.deep_view()),
{
    let mut r = if negated {
        String::from_str("not ")
    } else {
        String::new()
    };
    r.append(verb);
    r.push(' ');
    r.append(object);
    if qualifiers.len() > 0 {
        r.push(' ');
        let tail = join_spaced(qualifiers);
        r.append(tail.as_str());
    }
    r
}

impl Clone for AssertionSentence {
    fn clone(&self) -> (r: Self)
        ensures
            r@ == self@,
    {
        AssertionSentence {
            subject: self.subject.clone(),
            verb: self.verb.clone(),
            object: self.object.clone(),
            qualifiers: self.qualifiers.clone(),
            negated: self.negated,
        }
    }
}

impl AssertionSentence {
    /// Create a new assertion sentence: no subject yet, no qualifiers, not
    /// negated.
    pub fn new(verb: &str, object: &str) -> (r: Self)
        ensures
            r@ == plain_sentence(verb@, object@),
    {
        let r = AssertionSentence {
            subject: String::new(),
            verb: String::from_str(verb),
            object: String::from_str(object),
            qualifiers: Vec::new(),
            negated: false,
        };
        assert(r.qualifiers.deep_view() =~= Seq::<Seq<char>>::empty());
        r
    }

    /// Set whether the assertion is negated.
    pub fn with_negation(self, negated: bool) -> (r: Self)
        ensures
            r@ == (SentenceView { negated, ..self@ }),
    {
        let mut s = self;
        s.negated = negated;
        s
    }

    /// Add a qualifier to the assertion, after those it has.
    pub fn with_qualifier(self, qualifier: &str) -> (r: Self)
        ensures
            r@ == (SentenceView { qualifiers: self@.qualifiers.push(qualifier@), ..self@ }),
    {
        let mut s = self;
        s.qualifiers.push(String::from_str(qualifier));
        assert(s.qualifiers.deep_view() =~= self.qualifiers.deep_view().push(qualifier@));
        s
    }

    /// Set the subject of the sentence.
    pub fn with_subject(self, subject: &str) -> (r: Self)
        ensures
            r@ == (SentenceView { subject: subject@, ..self@ }),
    {
        let mut s = self;
        s.subject = String::from_str(subject);
        s
    }

    /// The sentence as it is worded: verb, object where there is one, and
    /// qualifiers, without a mark of negation.
    pub fn worded(&self) -> (r: String)
        ensures
            r@ == wording(self@),
    {
        let mut r = self.verb.clone();
        if !self.object.as_str().is_empty() {
            r.push(' ');
            r.append(self.object.as_str());
        }
        if self.qualifiers.len() > 0 {
            r.push(' ');
            let tail = join_spaced(&self.qualifiers);
            r.append(tail.as_str());
        }
        r
    }

    /// Format the sentence into a readable string (raw format, without subject).
    pub fn format(&self) -> (r: String)
        ensures
            r@ == sentence_text(self@),
    {
        render(self.negated, self.verb.as_str(), self.object.as_str(), &self.qualifiers)
    }

    /// Format the sentence with the verb conjugated to agree with the subject.
    pub fn format_with_conjugation(&self, subject: &str) -> (r: String)
        ensures
            r@ == conjugated_text(self@, subject@),
    {
        let is_plural = Self::is_plural_subject(subject);
        let conjugated_verb = self.conjugate_verb(is_plural);
        render(self.negated, conjugated_verb.as_str(), self.object.as_str(), &self.qualifiers)
    }

    /// Determine if a subject name is likely plural.
    pub fn is_plural_subject(subject: &str) -> (r: bool)
        ensures
            r == is_plural(subject@),
    {
        let base = Self::extract_base_name(subject);
        let name = base.as_str();
        if ends_with(name, "s") || ends_with(name, "es") || ends_with(name, "ies") {
            return true;
        }
        let lowered = to_lowercase(name);
        is_in_common_plurals(lowered.as_str())
    }

    /// Extract the base variable name from expressions such as `&var`,
    /// `var.method()` or `var[0]`.
    pub fn extract_base_name(expr: &str) -> (r: String)
        ensures
            r@ == base_name(expr@),
    {
        let all = chars_of(expr);
        let mut start: usize = 0;
        assert(all@.skip(0) =~= all@);
        while start < all.len() && all[start] == '&'
            invariant
                start <= all.len(),
                without_refs(all@) == without_refs(all@.skip(start as int)),
            decreases all.len() - start,
        {
            proof {
                let rest = all@.skip(start as int);
                assert(rest.drop_first() =~= all@.skip(start as int + 1));
            }
            start = start + 1;
        }
        let bare = chars_of(text_of(&all, start, all.len()).as_str());
        match find_char(&bare, '.') {
            Some(i) => {
                proof {
                    crate::text::lemma_first_index_of(bare@, '.');
                }
                text_of(&bare, 0, i)
            },
            None => match find_char(&bare, '[') {
                Some(i) => {
                    proof {
                        crate::text::lemma_first_index_of(bare@, '[');
                    }
                    text_of(&bare, 0, i)
                },
                None => {
                    text_of(&bare, 0, bare.len())
                },
            },
        }
    }

    /// Conjugate the verb based on plurality.
    pub fn conjugate_verb(&self, is_plural: bool) -> (r: String)
        ensures
            r@ == conjugated(self@.verb, is_plural),
    {
        let verb = self.verb.as_str();
        if verb.eq("be") {
            if is_plural {
                String::from_str("are")
            } else {
                String::from_str("is")
            }
        } else if verb.eq("have") {
            if is_plural {
                String::from_str("have")
            } else {
                String::from_str("has")
            }
        } else if verb.eq("contain") {
            if is_plural {
                String::from_str("contain")
            } else {
                String::from_str("contains")
            }
        } else if is_plural {
            String::from_str(verb)
        } else if ends_with(verb, "s") || ends_with(verb, "x") || ends_with(verb, "z") || ends_with(
            verb,
            "sh",
        ) || ends_with(verb, "ch") {
            followed_by(verb, "es")
        } else if ends_with(verb, "y") && !ends_with(verb, "ay") && !ends_with(verb, "ey")
            && !ends_with(verb, "oy") && !ends_with(verb, "uy") {
            let letters = chars_of(verb);
            proof {
                reveal_strlit("y");
            }
            let stem = text_of(&letters, 0, letters.len() - 1);
            followed_by(stem.as_str(), "ies")
        } else {
            followed_by(verb, "s")
        }
    }
}

} // verus!
