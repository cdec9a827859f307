//! The step ledger of one chain, and the evaluator that turns it into an
//! outcome and a message.
use crate::finality::{after_emit, room_to_emit};
use crate::reporter::Reporter;
use crate::sentence::{wording, AssertionSentence, SentenceView};
use crate::steps::{
    chain_passes, chain_result, copy_steps, group_into_segments, lemma_passes_by_segments,
    with_last_logic,
    lemma_segments_in_range, lemma_two_steps, segment_holds, segments_of, step_views,
    AssertionStep, LogicalOp, StepView,
};
use crate::test_result::{step_results, AssertionResult, ResultView};
use crate::text::{chars_of, find_char, first_index_of, lemma_first_index_of, text_of};
use vstd::prelude::*;
use vstd::string::*;

verus! {

/// Represents a complete assertion chain.
#[derive(Debug)]
pub struct AssertionChain {
    /// The expression being evaluated (with & symbols removed)
    pub expr_str: String,
    /// All steps in the assertion chain
    pub steps: Vec<AssertionStep>,
}

/// The mathematical content of an [`AssertionChain`].
pub struct ChainView {
    pub expr: Seq<char>,
    pub steps: Seq<StepView>,
}

impl View for AssertionChain {
    type V = ChainView;

    open spec fn view(&self) -> ChainView {
        ChainView { expr: self.expr_str@, steps: step_views(self.steps@) }
    }
}

/// `s` without any of its `&` characters.
pub open spec fn without_ampersands(s: Seq<char>) -> Seq<char>
    decreases s.len(),
{
    if s.len() == 0 {
        Seq::empty()
    } else {
        let init = without_ampersands(s.drop_last());
        if s.last() == '&' {
            init
        } else {
            init.push(s.last())
        }
    }
}

/// Where a description is split into verb and object: at its first space,
/// if something follows that space. A description of one word, and one that
/// ends with its first space, is not split.
pub open spec fn split_point(description: Seq<char>) -> Option<int> {
    match first_index_of(description, ' ') {
        Some(i) => if i + 1 < description.len() {
            Some(i)
        } else {
            None
        },
        None => None,
    }
}

/// The verb of a description: what stands before the split point, or all of
/// it where it is not split.
pub open spec fn leading_word(description: Seq<char>) -> Seq<char> {
    match split_point(description) {
        Some(i) => description.take(i),
        None => description,
    }
}

/// The object of a description: what follows the split point; nothing where
/// it is not split.
pub open spec fn after_leading_word(description: Seq<char>) -> Seq<char> {
    match split_point(description) {
        Some(i) => description.skip(i + 1),
        None => Seq::empty(),
    }
}

/// A step recorded from a description is worded as the description, whatever
/// the description holds and whether or not the step is marked as negated.
pub proof fn lemma_description_is_kept(
    expr: Seq<char>,
    description: Seq<char>,
    passed: bool,
    negated: bool,
)
    ensures
        step_text(
            recorded_step(
                expr,
                leading_word(description),
                after_leading_word(description),
                passed,
                negated,
            ),
        ) == description,
{
    lemma_first_index_of(description, ' ');
    match split_point(description) {
        Some(i) => {
            assert(description.take(i) + seq![' '] + description.skip(i + 1) =~= description);
        },
        None => {},
    }
}

/// The step that a chain records for a matcher call: the sentence carries
/// the chain's expression as its subject.
pub open spec fn recorded_step(
    expr: Seq<char>,
    verb: Seq<char>,
    object: Seq<char>,
    passed: bool,
    negated: bool,
) -> StepView {
    StepView {
        sentence: SentenceView { subject: expr, verb, object, qualifiers: Seq::empty(), negated },
        passed,
        logical_op: None,
    }
}

/// The text of a step in a message: its sentence as it is worded.
pub open spec fn step_text(step: StepView) -> Seq<char> {
    wording(step.sentence)
}

/// The text of an operator. A missing operator shows as a sentinel.
pub open spec fn op_text(op: Option<LogicalOp>) -> Seq<char> {
    match op {
        Some(LogicalOp::And) => "AND"@,
        Some(LogicalOp::Or) => "OR"@,
        None => "[MISSING OP]"@,
    }
}

/// What the message gains with step `idx`: the operator that joins it to the
/// step before, between spaces, and its rendering. The first step gains
/// nothing here.
pub open spec fn link(steps: Seq<StepView>, idx: int) -> Seq<char> {
    if idx > 0 {
        seq![' '] + op_text(steps[idx - 1].logical_op) + seq![' '] + step_text(steps[idx])
    } else {
        Seq::empty()
    }
}

/// The links of the steps that `indices` lists, in that order.
pub open spec fn links(steps: Seq<StepView>, indices: Seq<usize>) -> Seq<char>
    decreases indices.len(),
{
    if indices.len() == 0 {
        Seq::empty()
    } else {
        links(steps, indices.drop_last()) + link(steps, indices.last() as int)
    }
}

/// The links of all the steps that `segments` lists, segment by segment.
pub open spec fn links_over(steps: Seq<StepView>, segments: Seq<Seq<usize>>) -> Seq<char>
    decreases segments.len(),
{
    if segments.len() == 0 {
        Seq::empty()
    } else {
        links_over(steps, segments.drop_last()) + links(steps, segments.last())
    }
}

/// The links of the first `n` steps.
pub open spec fn links_to(steps: Seq<StepView>, n: int) -> Seq<char>
    decreases n,
{
    if n <= 0 {
        Seq::empty()
    } else {
        links_to(steps, n - 1) + link(steps, n - 1)
    }
}

/// The message of a chain: the expression and the first sentence, then for
/// each further step the operator before it and its sentence.
pub open spec fn chain_message(expr: Seq<char>, steps: Seq<StepView>) -> Seq<char> {
    if steps.len() == 0 {
        "No assertions made"@
    } else {
        expr + seq![' '] + step_text(steps[0]) + links_to(steps, steps.len() as int)
    }
}

/// The links of the first `n` steps rest on these steps alone, and not on
/// the operator of the last of them.
pub proof fn lemma_links_rest_on_their_steps(a: Seq<StepView>, b: Seq<StepView>, n: int)
    requires
        n <= a.len(),
        n <= b.len(),
        forall|k: int| 0 <= k < n ==> (#[trigger] a[k]).sentence == b[k].sentence,
        forall|k: int| 0 <= k < n - 1 ==> (#[trigger] a[k]).logical_op == b[k].logical_op,
    ensures
        links_to(a, n) == links_to(b, n),
    decreases n,
{
    if n > 0 {
        lemma_links_rest_on_their_steps(a, b, n - 1);
        if n > 1 {
            assert(a[n - 2].logical_op == b[n - 2].logical_op);
            assert(a[n - 1].sentence == b[n - 1].sentence);
        }
    }
}

/// The message lists the sentences in the order of the steps: one more step
/// adds the operator before it and its sentence at the end, and changes
/// nothing before.
pub proof fn lemma_message_grows(expr: Seq<char>, steps: Seq<StepView>, next: StepView)
    requires
        steps.len() > 0,
    ensures
        chain_message(expr, steps.push(next)) == chain_message(expr, steps) + seq![' '] + op_text(
            steps.last().logical_op,
        ) + seq![' '] + step_text(next),
{
    let n = steps.len() as int;
    let longer = steps.push(next);
    lemma_links_rest_on_their_steps(longer, steps, n);
    assert(link(longer, n) == seq![' '] + op_text(steps.last().logical_op) + seq![' ']
        + step_text(next));
    let head = expr + seq![' '] + step_text(steps[0]);
    assert(head + (links_to(steps, n) + link(longer, n)) =~= (head + links_to(steps, n)) + seq![
        ' ',
    ] + op_text(steps.last().logical_op) + seq![' '] + step_text(next));
}

/// The operator of the last step does not show in the message.
pub proof fn lemma_last_operator_does_not_show(expr: Seq<char>, steps: Seq<StepView>, op: LogicalOp)
    ensures
        chain_message(expr, with_last_logic(steps, op)) == chain_message(expr, steps),
{
    if steps.len() > 0 {
        lemma_links_rest_on_their_steps(with_last_logic(steps, op), steps, steps.len() as int);
    }
}

/// The links of a run of consecutive steps continue the links of the steps
/// before the run.
pub proof fn lemma_links_of_run(steps: Seq<StepView>, run: Seq<usize>, first: int)
    requires
        0 <= first,
        forall|k: int| 0 <= k < run.len() ==> (#[trigger] run[k]) == first + k,
    ensures
        links_to(steps, first) + links(steps, run) == links_to(steps, first + run.len()),
    decreases run.len(),
{
    if run.len() == 0 {
    } else {
        let init = run.drop_last();
        lemma_links_of_run(steps, init, first);
        let last = run.last() as int;
    }
}

/// The links over the first `m` listed segments are the links of the steps
/// up to the end of the last of them.
pub proof fn lemma_links_of_segments(steps: Seq<StepView>, segments: Seq<Seq<usize>>, m: int)
    requires
        segments_of(steps, segments),
        0 <= m <= segments.len(),
    ensures
        links_over(steps, segments.take(m)) == links_to(
            steps,
            if m == 0 {
                0
            } else {
                segments[m - 1].last() + 1
            },
        ),
    decreases m,
{
    if m > 0 {
        lemma_links_of_segments(steps, segments, m - 1);
        let upto = segments.take(m);
        assert(upto.drop_last() =~= segments.take(m - 1));
        let run = segments[m - 1];
        let first: int = if m == 1 {
            0
        } else {
            segments[m - 2].last() + 1
        };
        assert(run[0] == first) by {
            if m > 1 {
                assert(segments[(m - 2) + 1][0] == segments[m - 2].last() + 1);
            }
        }
        assert forall|k: int| 0 <= k < run.len() implies (#[trigger] run[k]) == first + k by {}
        lemma_links_of_run(steps, run, first);
    }
}

/// The text of an operator. A missing operator shows as a sentinel.
pub fn op_str(op: &Option<LogicalOp>) -> (r: &'static str)
    ensures
        r@ == op_text(*op),
{
    match op {
        Some(LogicalOp::And) => "AND",
        Some(LogicalOp::Or) => "OR",
        None => "[MISSING OP]",
    }
}

/// `s` without any of its `&` characters.
pub fn strip_ampersands(s: &str) -> (r: String)
    ensures
        r@ == without_ampersands(s@),
{
    let all = chars_of(s);
    let mut r = String::new();
    let mut i: usize = 0;
    while i < all.len()
        invariant
            i <= all.len(),
            r@ == without_ampersands(all@.take(i as int)),
        decreases all.len() - i,
    {
        proof {
            assert(all@.take(i as int + 1).drop_last() =~= all@.take(i as int));
        }
        if all[i] != '&' {
            r.push(all[i]);
        }
        i = i + 1;
    }
    assert(all@.take(all.len() as int) =~= all@);
    r
}

impl Clone for AssertionChain {
    fn clone(&self) -> (r: Self)
        ensures
            r@ == self@,
    {
        AssertionChain {
            expr_str: self.expr_str.clone(),
            steps: copy_steps(&self.steps),
        }
    }
}

impl AssertionChain {
    /// Create a new assertion chain. Ampersands are removed from the
    /// expression for cleaner output.
    pub fn new(expr_str: &str) -> (r: Self)
        ensures
            r@ == (ChainView { expr: without_ampersands(expr_str@), steps: Seq::empty() }),
    {
        let r = AssertionChain { expr_str: strip_ampersands(expr_str), steps: Vec::new() };
        assert(r@.steps =~= Seq::<StepView>::empty());
        r
    }

    /// Add a new assertion step to the chain using structured parts.
    pub fn add_step_with_parts(&mut self, verb: &str, object: &str, passed: bool, negated: bool)
        ensures
            final(self)@ == (ChainView {
                steps: old(self)@.steps.push(
                    recorded_step(old(self)@.expr, verb@, object@, passed, negated),
                ),
                ..old(self)@
            }),
    {
        let sentence = AssertionSentence::new(verb, object).with_negation(negated).with_subject(
            self.expr_str.as_str(),
        );
        self.steps.push(AssertionStep { sentence, passed, logical_op: None });
        assert(self@.steps =~= old(self)@.steps.push(
            recorded_step(old(self)@.expr, verb@, object@, passed, negated),
        ));
    }

    /// Add a new assertion step to the chain from a full description: its
    /// first word is the verb, the rest the object, and in a message the step
    /// reads as the description.
    pub fn add_step(&mut self, description: &str, passed: bool, negated: bool)
        ensures
            final(self)@ == (ChainView {
                steps: old(self)@.steps.push(
                    recorded_step(
                        old(self)@.expr,
                        leading_word(description@),
                        after_leading_word(description@),
                        passed,
                        negated,
                    ),
                ),
                ..old(self)@
            }),
            step_text(final(self)@.steps.last()) == description@,
    {
        let all = chars_of(description);
        proof {
            lemma_first_index_of(all@, ' ');
            lemma_description_is_kept(self@.expr, description@, passed, negated);
        }
        match find_char(&all, ' ') {
            Some(i) => {
                if i + 1 < all.len() {
                    let verb = text_of(&all, 0, i);
                    let object = text_of(&all, i + 1, all.len());
                    proof {
                        assert(all@.take(i as int) =~= all@.subrange(0, i as int));
                        assert(all@.skip(i as int + 1) =~= all@.subrange(
                            i as int + 1,
                            all.len() as int,
                        ));
                    }
                    self.add_step_with_parts(verb.as_str(), object.as_str(), passed, negated);
                } else {
                    self.add_step_unsplit(description, passed, negated);
                }
            },
            None => {
                self.add_step_unsplit(description, passed, negated);
            },
        }
    }

    /// Add a step whose verb is all of `description` and whose object is
    /// empty.
    fn add_step_unsplit(&mut self, description: &str, passed: bool, negated: bool)
        ensures
            final(self)@ == (ChainView {
                steps: old(self)@.steps.push(
                    recorded_step(old(self)@.expr, description@, Seq::empty(), passed, negated),
                ),
                ..old(self)@
            }),
    {
        proof {
            reveal_strlit("");
            assert(""@ =~= Seq::<char>::empty());
        }
        self.add_step_with_parts(description, "", passed, negated);
    }

    /// Set the logical operation for the last step.
    pub fn set_last_logic(&mut self, op: LogicalOp)
        ensures
            final(self)@ == (ChainView {
                steps: with_last_logic(old(self)@.steps, op),
                ..old(self)@
            }),
    {
        match self.steps.pop() {
            Some(last) => {
                let last = AssertionStep { logical_op: Some(op), ..last };
                self.steps.push(last);
                assert(self@.steps =~= with_last_logic(old(self)@.steps, op));
            },
            None => {},
        }
    }

    /// Calculate if the entire chain passes.
    pub fn calculate_chain_result(&self) -> (passed: bool)
        ensures
            passed == chain_passes(self@.steps),
    {
        chain_result(&self.steps)
    }

    /// Group steps into segments separated by OR operators.
    pub fn group_steps_into_segments(&self) -> (segments: Vec<Vec<usize>>)
        ensures
            segments_of(self@.steps, segments.deep_view()),
    {
        group_into_segments(&self.steps)
    }

    /// Convert the assertion chain to an `AssertionResult`.
    pub fn to_assertion_result(&self) -> (r: AssertionResult)
        ensures
            r@ == (ResultView {
                expr: self@.expr,
                steps: self@.steps,
                passed: chain_passes(self@.steps),
            }),
    {
        AssertionResult {
            expr_str: self.expr_str.clone(),
            steps: step_results(&self.steps),
            passed: self.calculate_chain_result(),
        }
    }

    /// Evaluate the entire assertion chain and report the result: a failure
    /// always, a success where the chain has steps. Returns whether the
    /// assertion passed.
    pub fn evaluate(self, reporter: &mut Reporter) -> (passed: bool)
        requires
            old(reporter).well_formed(),
            room_to_emit(old(reporter)@, self@.steps, chain_passes(self@.steps)),
        ensures
            passed == chain_passes(self@.steps),
            final(reporter).well_formed(),
            final(reporter)@ == after_emit(old(reporter)@, self@.expr, self@.steps, passed),
    {
        let result = self.to_assertion_result();
        let passed = result.passed;
        if !passed || self.steps.len() > 0 {
            reporter.on_result(passed, result);
        }
        passed
    }

    /// Evaluate the entire chain and return the result and a message. The
    /// message shows each step as it is worded, joined by the operators; a
    /// step recorded from a description reads as that description.
    pub fn evaluate_chain(&self) -> (r: (bool, String))
        ensures
            r.0 == chain_passes(self@.steps),
            r.1@ == chain_message(self@.expr, self@.steps),
    {
        if self.steps.len() == 0 {
            return (true, String::from_str("No assertions made"));
        }
        if self.steps.len() == 1 {
            proof {
                crate::steps::lemma_single_step(self@.steps);
                assert(links_to(self@.steps, 1) =~= Seq::<char>::empty()) by {
                    assert(links_to(self@.steps, 0) =~= Seq::<char>::empty());
                }
            }
            return self.evaluate_single_step();
        }
        if self.steps.len() == 2 {
            proof {
                lemma_two_steps(self@.steps);
                let sv = self@.steps;
                assert(links_to(sv, 0) =~= Seq::<char>::empty());
                assert(links_to(sv, 1) =~= Seq::<char>::empty());
            }
            return self.evaluate_two_step_chain();
        }
        self.evaluate_multi_step_chain()
    }

    /// Evaluate a chain by its first step alone.
    pub fn evaluate_single_step(&self) -> (r: (bool, String))
        requires
            self@.steps.len() >= 1,
        ensures
            r.0 == self@.steps[0].passed,
            r.1@ == self@.expr + seq![' '] + step_text(self@.steps[0]),
    {
        let step = &self.steps[0];
        let mut message = self.expr_str.clone();
        message.push(' ');
        message.append(step.sentence.worded().as_str());
        (step.passed, message)
    }

    /// Evaluate a chain by its first two steps and the operator between them.
    pub fn evaluate_two_step_chain(&self) -> (r: (bool, String))
        requires
            self@.steps.len() >= 2,
        ensures
            r.0 == if self@.steps[0].logical_op == Some(LogicalOp::Or) {
                self@.steps[0].passed || self@.steps[1].passed
            } else {
                self@.steps[0].passed && self@.steps[1].passed
            },
            r.1@ == self@.expr + seq![' '] + step_text(self@.steps[0]) + seq![' '] + op_text(
                self@.steps[0].logical_op,
            ) + seq![' '] + step_text(self@.steps[1]),
    {
        let first = &self.steps[0];
        let second = &self.steps[1];
        let mut message = self.expr_str.clone();
        message.push(' ');
        message.append(first.sentence.worded().as_str());
        message.push(' ');
        message.append(op_str(&first.logical_op));
        message.push(' ');
        message.append(second.sentence.worded().as_str());
        let result = match first.logical_op {
            Some(LogicalOp::And) => first.passed && second.passed,
            Some(LogicalOp::Or) => first.passed || second.passed,
            None => first.passed && second.passed,
        };
        (result, message)
    }

    /// Evaluate a chain of any length of at least one by its segments.
    pub fn evaluate_multi_step_chain(&self) -> (r: (bool, String))
        requires
            self@.steps.len() >= 1,
        ensures
            r.0 == chain_passes(self@.steps),
            r.1@ == chain_message(self@.expr, self@.steps),
    {
        let mut message = self.expr_str.clone();
        message.push(' ');
        message.append(self.steps[0].sentence.worded().as_str());
        let segments = self.group_steps_into_segments();
        proof {
            lemma_segments_in_range(self@.steps, segments.deep_view());
            assert forall|s: int, k: int|
                0 <= s < segments.len() && 0 <= k < segments@[s].len() implies (
            #[trigger] segments@[s]@[k]) < self.steps.len() by {
                assert(segments.deep_view()[s] =~= segments@[s]@);
            }
        }
        let (segment_results, updated_message) = self.evaluate_segments(&segments, message);
        let final_result = crate::steps::any_true(&segment_results);
        proof {
            let sv = self@.steps;
            let listed = segments.deep_view();
            lemma_passes_by_segments(sv, listed);
            if final_result {
                let t = choose|t: int| 0 <= t < segment_results.len() && segment_results@[t];
                assert(segment_holds(sv, listed[t]));
            }
            lemma_links_of_segments(sv, listed, listed.len() as int);
            assert(listed.take(listed.len() as int) =~= listed);
        }
        (final_result, updated_message)
    }

    /// Evaluate segments and build the complete message: each listed step
    /// but step 0 adds its operator and sentence to `message`.
    pub fn evaluate_segments(&self, segments: &Vec<Vec<usize>>, message: String) -> (r: (
        Vec<bool>,
        String,
    ))
        requires
            forall|s: int, k: int|
                0 <= s < segments.len() && 0 <= k < segments@[s].len() ==> (
                #[trigger] segments@[s]@[k]) < self.steps.len(),
        ensures
            r.0.len() == segments.len(),
            forall|s: int|
                0 <= s < segments.len() ==> r.0@[s] == segment_holds(
                    self@.steps,
                    #[trigger] segments.deep_view()[s],
                ),
            r.1@ == message@ + links_over(self@.steps, segments.deep_view()),
    {
        let ghost sv = self@.steps;
        let ghost listed = segments.deep_view();
        let ghost start = message@;
        let mut message = message;
        let mut segment_results: Vec<bool> = Vec::new();
        let mut s: usize = 0;
        while s < segments.len()
            invariant
                s <= segments.len(),
                sv == self@.steps,
                listed == segments.deep_view(),
                segment_results.len() == s,
                forall|t: int, k: int|
                    0 <= t < segments.len() && 0 <= k < segments@[t].len() ==> (
                    #[trigger] segments@[t]@[k]) < self.steps.len(),
                forall|t: int|
                    0 <= t < s ==> segment_results@[t] == segment_holds(sv, #[trigger] listed[t]),
                message@ == start + links_over(sv, listed.take(s as int)),
            decreases segments.len() - s,
        {
            let segment = &segments[s];
            let ghost run = listed[s as int];
            let ghost before = message@;
            let mut segment_result = true;
            let mut k: usize = 0;
            while k < segment.len()
                invariant
                    k <= segment.len(),
                    sv == self@.steps,
                    run == segment@,
                    forall|j: int| 0 <= j < segment.len() ==> (#[trigger] segment@[j])
                        < self.steps.len(),
                    segment_result == segment_holds(sv, run.take(k as int)),
                    message@ == before + links(sv, run.take(k as int)),
                decreases segment.len() - k,
            {
                let step_idx = segment[k];
                let ghost upto = run.take(k as int + 1);
                proof {
                    assert(upto.drop_last() =~= run.take(k as int));
                }
                segment_result = segment_result && self.steps[step_idx].passed;
                proof {
                    if segment_holds(sv, upto) {
                        assert forall|j: int| 0 <= j < k implies sv[#[trigger] run.take(
                            k as int,
                        )[j] as int].passed by {}
                    }
                    if segment_holds(sv, run.take(k as int)) && sv[step_idx as int].passed {
                        assert forall|j: int| 0 <= j < upto.len() implies sv[#[trigger] upto[j] as int].passed by {}
                    }
                }
                if step_idx > 0 {
                    let prev = &self.steps[step_idx - 1];
                    message.push(' ');
                    message.append(op_str(&prev.logical_op));
                    message.push(' ');
                    message.append(self.steps[step_idx].sentence.worded().as_str());
                }
                proof {
                    assert(message@ =~= before + links(sv, upto));
                }
                k = k + 1;
            }
            proof {
                assert(run.take(segment.len() as int) =~= run);
                let upto = listed.take(s as int + 1);
                assert(upto.drop_last() =~= listed.take(s as int));
            }
            segment_results.push(segment_result);
            s = s + 1;
        }
        assert(listed.take(segments.len() as int) =~= listed);
        (segment_results, message)
    }
}

} // verus!
