//! What is kept of a chain once it has been evaluated.
use crate::chain::{chain_message, AssertionChain};
use crate::text::followed_by;
use crate::sentence::{conjugated, is_plural, AssertionSentence, SentenceView};
use crate::steps::{AssertionStep, LogicalOp, StepView};
use vstd::string::*;
use vstd::prelude::*;

verus! {

/// Represents a step in an assertion evaluation.
#[derive(Debug)]
pub struct AssertionStepResult {
    /// The assertion sentence components
    pub sentence: AssertionSentence,
    /// Whether this step passed
    pub passed: bool,
    /// The logical operation connecting this step to the next one
    pub logical_op: Option<LogicalOp>,
}

/// Represents the complete result of an assertion chain.
#[derive(Debug)]
pub struct AssertionResult {
    /// The expression being evaluated
    pub expr_str: String,
    /// All steps in the assertion evaluation
    pub steps: Vec<AssertionStepResult>,
    /// Whether the overall assertion passed or failed
    pub passed: bool,
}

/// Represents the complete result of a test session.
#[derive(Debug)]
pub struct TestSessionResult {
    /// Number of passed tests
    pub passed_count: usize,
    /// Number of failed tests
    pub failed_count: usize,
    /// Detailed results of failed tests
    pub failures: Vec<AssertionResult>,
}

/// The mathematical content of an [`AssertionResult`].
pub struct ResultView {
    pub expr: Seq<char>,
    pub steps: Seq<StepView>,
    pub passed: bool,
}

/// The mathematical content of a [`TestSessionResult`].
pub struct SessionView {
    pub passed_count: nat,
    pub failed_count: nat,
    pub failures: Seq<ResultView>,
}

impl View for AssertionStepResult {
    type V = StepView;

    open spec fn view(&self) -> StepView {
        StepView { sentence: self.sentence@, passed: self.passed, logical_op: self.logical_op }
    }
}

/// The views of a sequence of step results.
pub open spec fn step_result_views(steps: Seq<AssertionStepResult>) -> Seq<StepView> {
    Seq::new(steps.len(), |i: int| steps[i]@)
}

impl View for AssertionResult {
    type V = ResultView;

    open spec fn view(&self) -> ResultView {
        ResultView {
            expr: self.expr_str@,
            steps: step_result_views(self.steps@),
            passed: self.passed,
        }
    }
}

/// The views of a sequence of results.
pub open spec fn result_views(results: Seq<AssertionResult>) -> Seq<ResultView> {
    Seq::new(results.len(), |i: int| results[i]@)
}

impl View for TestSessionResult {
    type V = SessionView;

    open spec fn view(&self) -> SessionView {
        SessionView {
            passed_count: self.passed_count as nat,
            failed_count: self.failed_count as nat,
            failures: result_views(self.failures@),
        }
    }
}

/// The steps, each recorded as it stands.
pub fn step_results(steps: &Vec<AssertionStep>) -> (r: Vec<AssertionStepResult>)
    ensures
        step_result_views(r@) == crate::steps::step_views(steps@),
{
    let mut r: Vec<AssertionStepResult> = Vec::new();
    let mut i: usize = 0;
    while i < steps.len()
        invariant
            i <= steps.len(),
            r.len() == i,
            forall|j: int| 0 <= j < i ==> r@[j]@ == steps@[j]@,
        decreases steps.len() - i,
    {
        r.push(AssertionStepResult::of_step(&steps[i]));
        i = i + 1;
    }
    r
}

/// Whether two lists of strings hold the same texts in the same order.
pub fn same_texts(a: &Vec<String>, b: &Vec<String>) -> (r: bool)
    ensures
        r == (a.deep_view() == b.deep_view()),
{
    if a.len() != b.len() {
        assert(a.deep_view().len() != b.deep_view().len());
        return false;
    }
    let mut i: usize = 0;
    while i < a.len()
        invariant
            i <= a.len(),
            a.len() == b.len(),
            forall|j: int| 0 <= j < i ==> a@[j]@ == b@[j]@,
        decreases a.len() - i,
    {
        if a[i] != b[i] {
            assert(a.deep_view()[i as int] != b.deep_view()[i as int]);
            return false;
        }
        i = i + 1;
    }
    assert(a.deep_view() =~= b.deep_view());
    true
}

/// Whether two sentences have the same content.
pub fn same_sentence(a: &AssertionSentence, b: &AssertionSentence) -> (r: bool)
    ensures
        r == (a@ == b@),
{
    a.subject == b.subject && a.verb == b.verb && a.object == b.object && a.negated == b.negated
        && same_texts(&a.qualifiers, &b.qualifiers)
}

/// Whether two operators are the same.
pub fn same_op(a: &Option<LogicalOp>, b: &Option<LogicalOp>) -> (r: bool)
    ensures
        r == (*a == *b),
{
    match (a, b) {
        (None, None) => true,
        (Some(LogicalOp::And), Some(LogicalOp::And)) => true,
        (Some(LogicalOp::Or), Some(LogicalOp::Or)) => true,
        _ => false,
    }
}

impl Clone for AssertionStepResult {
    fn clone(&self) -> (r: Self)
        ensures
            r@ == self@,
    {
        AssertionStepResult {
            sentence: self.sentence.clone(),
            passed: self.passed,
            logical_op: self.logical_op,
        }
    }
}

impl AssertionStepResult {
    /// The result that records a step as it stands.
    pub fn of_step(step: &AssertionStep) -> (r: Self)
        ensures
            r@ == step@,
    {
        AssertionStepResult {
            sentence: step.sentence.clone(),
            passed: step.passed,
            logical_op: step.logical_op,
        }
    }

    /// Whether two step results have the same content.
    pub fn same_as(&self, other: &Self) -> (r: bool)
        ensures
            r == (self@ == other@),
    {
        self.passed == other.passed && same_op(&self.logical_op, &other.logical_op)
            && same_sentence(&self.sentence, &other.sentence)
    }
}

impl Clone for AssertionResult {
    fn clone(&self) -> (r: Self)
        ensures
            r@ == self@,
    {
        let mut steps: Vec<AssertionStepResult> = Vec::new();
        let mut i: usize = 0;
        while i < self.steps.len()
            invariant
                i <= self.steps.len(),
                steps.len() == i,
                forall|j: int| 0 <= j < i ==> steps@[j]@ == self.steps@[j]@,
            decreases self.steps.len() - i,
        {
            steps.push(self.steps[i].clone());
            i = i + 1;
        }
        assert(step_result_views(steps@) =~= step_result_views(self.steps@));
        AssertionResult { expr_str: self.expr_str.clone(), steps, passed: self.passed }
    }
}

/// The verb of a sentence as a reader is shown it: in agreement with a
/// singular or plural subject, after "not " where the sentence is negated.
pub open spec fn shown_verb(s: SentenceView, plural: bool) -> Seq<char> {
    if s.negated {
        "not "@ + conjugated(s.verb, plural)
    } else {
        conjugated(s.verb, plural)
    }
}

/// The steps with each verb as a reader is shown it, the expression being
/// the subject.
pub open spec fn in_agreement(expr: Seq<char>, steps: Seq<StepView>) -> Seq<StepView> {
    Seq::new(
        steps.len(),
        |i: int|
            StepView {
                sentence: SentenceView {
                    verb: shown_verb(steps[i].sentence, is_plural(expr)),
                    ..steps[i].sentence
                },
                ..steps[i]
            },
    )
}

/// The account of a result for a reader: the message of its chain, with
/// each verb in agreement with the expression and each negation shown.
pub open spec fn description(r: ResultView) -> Seq<char> {
    chain_message(r.expr, in_agreement(r.expr, r.steps))
}

impl AssertionResult {
    /// The account of this result for a reader: the expression, then the
    /// sentence of each step with its verb in agreement with the expression,
    /// and the operators between them.
    pub fn describe(&self) -> (r: String)
        ensures
            r@ == description(self@),
    {
        let plural = AssertionSentence::is_plural_subject(self.expr_str.as_str());
        let mut steps: Vec<AssertionStep> = Vec::new();
        let mut i: usize = 0;
        while i < self.steps.len()
            invariant
                i <= self.steps.len(),
                steps.len() == i,
                plural == is_plural(self@.expr),
                forall|j: int|
                    0 <= j < i ==> (#[trigger] steps@[j])@ == in_agreement(
                        self@.expr,
                        self@.steps,
                    )[j],
            decreases self.steps.len() - i,
        {
            let step = &self.steps[i];
            let agreeing = step.sentence.conjugate_verb(plural);
            let verb = if step.sentence.negated {
                followed_by("not ", agreeing.as_str())
            } else {
                agreeing
            };
            let sentence = AssertionSentence {
                subject: step.sentence.subject.clone(),
                verb,
                object: step.sentence.object.clone(),
                qualifiers: step.sentence.qualifiers.clone(),
                negated: step.sentence.negated,
            };
            steps.push(AssertionStep { sentence, passed: step.passed, logical_op: step.logical_op });
            i = i + 1;
        }
        let chain = AssertionChain { expr_str: self.expr_str.clone(), steps };
        assert(chain@.steps =~= in_agreement(self@.expr, self@.steps));
        chain.evaluate_chain().1
    }

    /// Whether two results have the same content: the same expression, the
    /// same steps and the same outcome.
    pub fn same_as(&self, other: &Self) -> (r: bool)
        ensures
            r == (self@ == other@),
    {
        if self.passed != other.passed || self.expr_str != other.expr_str || self.steps.len()
            != other.steps.len() {
            assert(self.steps.len() != other.steps.len() ==> self@.steps.len() != other@.steps.len());
            return false;
        }
        let mut i: usize = 0;
        while i < self.steps.len()
            invariant
                i <= self.steps.len(),
                self.steps.len() == other.steps.len(),
                forall|j: int| 0 <= j < i ==> self.steps@[j]@ == other.steps@[j]@,
            decreases self.steps.len() - i,
        {
            if !self.steps[i].same_as(&other.steps[i]) {
                assert(self@.steps[i as int] != other@.steps[i as int]);
                return false;
            }
            i = i + 1;
        }
        assert(self@.steps =~= other@.steps);
        true
    }
}

impl Default for TestSessionResult {
    fn default() -> (r: Self)
        ensures
            r@ == (SessionView { passed_count: 0, failed_count: 0, failures: Seq::empty() }),
    {
        TestSessionResult::new()
    }
}

impl TestSessionResult {
    /// A session in which nothing has been counted yet.
    pub fn new() -> (r: Self)
        ensures
            r@ == (SessionView { passed_count: 0, failed_count: 0, failures: Seq::empty() }),
    {
        let r = TestSessionResult { passed_count: 0, failed_count: 0, failures: Vec::new() };
        assert(r@.failures =~= Seq::<ResultView>::empty());
        r
    }
}

} // verus!
