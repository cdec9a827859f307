//! The steps of a chain and its boolean algebra.
//!
//! A chain is a sequence of steps, each with its outcome and the operator
//! that joins it to the next step. Runs of steps joined by AND (or by a
//! missing operator) form segments; OR separates segments. The chain passes
//! when all steps of some segment passed.
use crate::sentence::{AssertionSentence, SentenceView};
use vstd::prelude::*;

verus! {

/// Represents a logical operation in an assertion chain.
#[derive(Debug, Clone, Copy, PartialEq, Eq, Structural)]
pub enum LogicalOp {
    /// AND operation (&&)
    And,
    /// OR operation (||)
    Or,
}

/// Represents a step in an assertion chain.
#[derive(Debug)]
pub struct AssertionStep {
    /// The assertion sentence components
    pub sentence: AssertionSentence,
    /// Whether this step passed, negation already applied
    pub passed: bool,
    /// The logical operation connecting this step to the next one
    pub logical_op: Option<LogicalOp>,
}

/// The mathematical content of an [`AssertionStep`].
pub struct StepView {
    pub sentence: SentenceView,
    pub passed: bool,
    pub logical_op: Option<LogicalOp>,
}

impl View for AssertionStep {
    type V = StepView;

    open spec fn view(&self) -> StepView {
        StepView { sentence: self.sentence@, passed: self.passed, logical_op: self.logical_op }
    }
}

impl Clone for AssertionStep {
    fn clone(&self) -> (r: Self)
        ensures
            r@ == self@,
    {
        AssertionStep {
            sentence: self.sentence.clone(),
            passed: self.passed,
            logical_op: self.logical_op,
        }
    }
}

/// The views of a sequence of steps.
pub open spec fn step_views(steps: Seq<AssertionStep>) -> Seq<StepView> {
    Seq::new(steps.len(), |i: int| steps[i]@)
}

/// Step `k` is joined to the next step by OR.
pub open spec fn or_after(steps: Seq<StepView>, k: int) -> bool {
    steps[k].logical_op == Some(LogicalOp::Or)
}

/// The steps `lo..=hi` are a segment: a maximal run without an OR inside.
pub open spec fn is_segment(steps: Seq<StepView>, lo: int, hi: int) -> bool {
    &&& 0 <= lo <= hi < steps.len()
    &&& (lo == 0 || or_after(steps, lo - 1))
    &&& (hi == steps.len() - 1 || or_after(steps, hi))
    &&& forall|k: int| lo <= k < hi ==> !or_after(steps, k)
}

/// All of the steps `lo..=hi` passed.
pub open spec fn all_passed(steps: Seq<StepView>, lo: int, hi: int) -> bool {
    forall|k: int| lo <= k <= hi ==> (#[trigger] steps[k]).passed
}

/// The value of a chain: an empty chain passes; any other passes when all
/// steps of one of its segments passed.
pub open spec fn chain_passes(steps: Seq<StepView>) -> bool {
    steps.len() == 0 || exists|lo: int, hi: int|
        #[trigger] is_segment(steps, lo, hi) && all_passed(steps, lo, hi)
}

/// All the steps that `segment` lists passed.
pub open spec fn segment_holds(steps: Seq<StepView>, segment: Seq<usize>) -> bool {
    forall|k: int| 0 <= k < segment.len() ==> steps[#[trigger] segment[k] as int].passed
}

/// `segments` lists the segments of `steps`, first to last, each by the
/// indices of its steps in ascending order.
pub open spec fn segments_of(steps: Seq<StepView>, segments: Seq<Seq<usize>>) -> bool {
    &&& steps.len() == 0 <==> segments.len() == 0
    &&& forall|s: int| 0 <= s < segments.len() ==> (#[trigger] segments[s]).len() > 0
    &&& forall|s: int|
        0 <= s < segments.len() ==> is_segment(
            steps,
            (#[trigger] segments[s]).first() as int,
            segments[s].last() as int,
        )
    &&& forall|s: int, k: int|
        0 <= s < segments.len() && 0 <= k < segments[s].len() ==> (#[trigger] segments[s][k])
            == segments[s][0] + k
    &&& segments.len() > 0 ==> segments[0][0] == 0 && segments.last().last() == steps.len() - 1
    &&& forall|s: int|
        0 <= s < segments.len() - 1 ==> (#[trigger] segments[s + 1])[0] == segments[s].last() + 1
}

/// The value of a chain rests on the outcomes of its steps and on the
/// operators between them, and on nothing else: a step's outcome has its
/// negation in it already, the sentences are not looked at again, and the
/// operator of the last step joins it to nothing.
pub proof fn lemma_value_ignores_sentences(a: Seq<StepView>, b: Seq<StepView>)
    requires
        a.len() == b.len(),
        forall|k: int| 0 <= k < a.len() ==> (#[trigger] a[k]).passed == b[k].passed,
        forall|k: int| 0 <= k < a.len() - 1 ==> (#[trigger] a[k]).logical_op == b[k].logical_op,
    ensures
        chain_passes(a) == chain_passes(b),
{
    if chain_passes(a) {
        lemma_value_follows_outcomes(a, b);
    }
    if chain_passes(b) {
        lemma_value_follows_outcomes(b, a);
    }
}

/// One direction of `lemma_value_ignores_sentences`.
proof fn lemma_value_follows_outcomes(a: Seq<StepView>, b: Seq<StepView>)
    requires
        a.len() == b.len(),
        forall|k: int| 0 <= k < a.len() ==> (#[trigger] a[k]).passed == b[k].passed,
        forall|k: int| 0 <= k < a.len() - 1 ==> (#[trigger] a[k]).logical_op == b[k].logical_op,
        chain_passes(a),
    ensures
        chain_passes(b),
{
    if a.len() > 0 {
        let (lo, hi) = choose|lo: int, hi: int|
            #[trigger] is_segment(a, lo, hi) && all_passed(a, lo, hi);
        assert(is_segment(b, lo, hi)) by {
            assert forall|k: int| lo <= k < hi implies !or_after(b, k) by {
                assert(!or_after(a, k));
                assert(a[k].logical_op == b[k].logical_op);
            }
            if lo > 0 {
                assert(a[lo - 1].logical_op == b[lo - 1].logical_op);
            }
            if hi < a.len() - 1 {
                assert(a[hi].logical_op == b[hi].logical_op);
            }
        }
        assert(all_passed(b, lo, hi)) by {
            assert forall|k: int| lo <= k <= hi implies (#[trigger] b[k]).passed by {
                assert(a[k].passed);
            }
        }
    }
}

/// `steps` with the operator of its last step set to `op`; an empty ledger
/// stays empty.
pub open spec fn with_last_logic(steps: Seq<StepView>, op: LogicalOp) -> Seq<StepView> {
    if steps.len() == 0 {
        steps
    } else {
        steps.update(steps.len() - 1, StepView { logical_op: Some(op), ..steps.last() })
    }
}

/// `steps` joined by `op` to one more step.
pub open spec fn continued(steps: Seq<StepView>, op: LogicalOp, next: StepView) -> Seq<StepView> {
    with_last_logic(steps, op).push(next)
}

/// The operator of the last step joins it to nothing: setting it changes
/// nothing about the value of the chain.
pub proof fn lemma_last_operator_is_idle(steps: Seq<StepView>, op: LogicalOp)
    ensures
        chain_passes(with_last_logic(steps, op)) == chain_passes(steps),
{
    lemma_value_ignores_sentences(steps, with_last_logic(steps, op));
}

/// OR adds an alternative: a chain joined by OR to one more step passes
/// when the chain passes or the step does.
pub proof fn lemma_or_adds_an_alternative(steps: Seq<StepView>, next: StepView)
    requires
        steps.len() > 0,
    ensures
        chain_passes(continued(steps, LogicalOp::Or, next)) == (chain_passes(steps)
            || next.passed),
{
    let n = steps.len() as int;
    let longer = continued(steps, LogicalOp::Or, next);
    assert(or_after(longer, n - 1));
    if chain_passes(steps) {
        let (lo, hi) = choose|lo: int, hi: int|
            #[trigger] is_segment(steps, lo, hi) && all_passed(steps, lo, hi);
        assert(is_segment(longer, lo, hi)) by {
            assert forall|k: int| lo <= k < hi implies !or_after(longer, k) by {
                assert(!or_after(steps, k));
            }
            if lo > 0 {
                assert(or_after(steps, lo - 1));
            }
            if hi < n - 1 {
                assert(or_after(steps, hi));
            }
        }
        assert(all_passed(longer, lo, hi)) by {
            assert forall|k: int| lo <= k <= hi implies (#[trigger] longer[k]).passed by {
                assert(steps[k].passed);
            }
        }
    }
    if next.passed {
        assert(is_segment(longer, n, n));
        assert(all_passed(longer, n, n));
    }
    if chain_passes(longer) {
        let (lo, hi) = choose|lo: int, hi: int|
            #[trigger] is_segment(longer, lo, hi) && all_passed(longer, lo, hi);
        if hi == n {
            if lo < n {
                assert(!or_after(longer, n - 1));
            }
            assert(longer[n].passed);
        } else {
            assert(is_segment(steps, lo, hi)) by {
                assert forall|k: int| lo <= k < hi implies !or_after(steps, k) by {
                    assert(!or_after(longer, k));
                }
                if lo > 0 {
                    assert(or_after(longer, lo - 1));
                }
                if hi < n - 1 {
                    assert(or_after(longer, hi));
                }
            }
            assert(all_passed(steps, lo, hi)) by {
                assert forall|k: int| lo <= k <= hi implies (#[trigger] steps[k]).passed by {
                    assert(longer[k].passed);
                }
            }
        }
    }
}

/// AND adds a condition: a chain joined by AND to one more step passes only
/// if the chain passes, and with a step that passed it passes exactly when
/// the chain does.
pub proof fn lemma_and_adds_a_condition(steps: Seq<StepView>, next: StepView)
    requires
        steps.len() > 0,
    ensures
        chain_passes(continued(steps, LogicalOp::And, next)) ==> chain_passes(steps),
        next.passed ==> chain_passes(continued(steps, LogicalOp::And, next)) == chain_passes(
            steps,
        ),
{
    let n = steps.len() as int;
    let longer = continued(steps, LogicalOp::And, next);
    assert(!or_after(longer, n - 1));
    if chain_passes(longer) {
        let (lo, hi) = choose|lo: int, hi: int|
            #[trigger] is_segment(longer, lo, hi) && all_passed(longer, lo, hi);
        let end = if hi == n {
            n - 1
        } else {
            hi
        };
        assert(is_segment(steps, lo, end)) by {
            if lo == n {
                assert(or_after(longer, n - 1));
            }
            assert forall|k: int| lo <= k < end implies !or_after(steps, k) by {
                assert(!or_after(longer, k));
            }
            if lo > 0 {
                assert(or_after(longer, lo - 1));
            }
            if end < n - 1 {
                assert(or_after(longer, end));
            }
        }
        assert(all_passed(steps, lo, end)) by {
            assert forall|k: int| lo <= k <= end implies (#[trigger] steps[k]).passed by {
                assert(longer[k].passed);
            }
        }
    }
    if next.passed && chain_passes(steps) {
        let (lo, hi) = choose|lo: int, hi: int|
            #[trigger] is_segment(steps, lo, hi) && all_passed(steps, lo, hi);
        let end = if hi == n - 1 {
            n
        } else {
            hi
        };
        assert(is_segment(longer, lo, end)) by {
            assert forall|k: int| lo <= k < end implies !or_after(longer, k) by {
                if k < n - 1 {
                    assert(!or_after(steps, k));
                }
            }
            if lo > 0 {
                assert(or_after(steps, lo - 1));
            }
            if end < n {
                assert(or_after(steps, end));
            }
        }
        assert(all_passed(longer, lo, end)) by {
            assert forall|k: int| lo <= k <= end implies (#[trigger] longer[k]).passed by {
                if k < n {
                    assert(steps[k].passed);
                }
            }
        }
    }
}

/// A chain of one step has the value of its step.
pub proof fn lemma_single_step(steps: Seq<StepView>)
    requires
        steps.len() == 1,
    ensures
        chain_passes(steps) == steps[0].passed,
{
    if steps[0].passed {
        assert(is_segment(steps, 0, 0));
    }
}

/// A chain of two steps joined by OR passes when either step passed; joined
/// by AND, or by no operator, it passes when both did.
pub proof fn lemma_two_steps(steps: Seq<StepView>)
    requires
        steps.len() == 2,
    ensures
        chain_passes(steps) == if steps[0].logical_op == Some(LogicalOp::Or) {
            steps[0].passed || steps[1].passed
        } else {
            steps[0].passed && steps[1].passed
        },
{
    if or_after(steps, 0) {
        if steps[0].passed {
            assert(is_segment(steps, 0, 0));
        }
        if steps[1].passed {
            assert(is_segment(steps, 1, 1));
        }
    } else {
        if steps[0].passed && steps[1].passed {
            assert(is_segment(steps, 0, 1));
        }
    }
}

/// `A and B or C` has the value `(A && B) || C`.
pub proof fn lemma_and_then_or(steps: Seq<StepView>)
    requires
        steps.len() == 3,
        steps[0].logical_op == Some(LogicalOp::And),
        steps[1].logical_op == Some(LogicalOp::Or),
    ensures
        chain_passes(steps) == ((steps[0].passed && steps[1].passed) || steps[2].passed),
{
    if steps[0].passed && steps[1].passed {
        assert(is_segment(steps, 0, 1));
    }
    if steps[2].passed {
        assert(is_segment(steps, 2, 2));
    }
}

/// Every segment of a chain is listed in its list of segments.
pub proof fn lemma_segment_listed(steps: Seq<StepView>, segments: Seq<Seq<usize>>, lo: int, hi: int)
    requires
        segments_of(steps, segments),
        is_segment(steps, lo, hi),
    ensures
        exists|s: int|
            0 <= s < segments.len() && (#[trigger] segments[s]).first() == lo && segments[s].last()
                == hi,
{
    lemma_segment_listed_from(steps, segments, lo, hi, 0);
}

proof fn lemma_segment_listed_from(
    steps: Seq<StepView>,
    segments: Seq<Seq<usize>>,
    lo: int,
    hi: int,
    from: int,
)
    requires
        segments_of(steps, segments),
        is_segment(steps, lo, hi),
        0 <= from < segments.len(),
        segments[from].first() <= lo,
    ensures
        exists|s: int|
            0 <= s < segments.len() && (#[trigger] segments[s]).first() == lo && segments[s].last()
                == hi,
    decreases segments.len() - from,
{
    let first = segments[from].first() as int;
    let last = segments[from].last() as int;
    if first == lo {
        if hi < last {
        } else if hi > last {
        }
    } else {
        if from < segments.len() - 1 {
            lemma_segment_listed_from(steps, segments, lo, hi, from + 1);
        }
    }
}

/// A copy of the steps.
pub fn copy_steps(steps: &Vec<AssertionStep>) -> (r: Vec<AssertionStep>)
    ensures
        step_views(r@) == step_views(steps@),
{
    let mut r: Vec<AssertionStep> = Vec::new();
    let mut i: usize = 0;
    while i < steps.len()
        invariant
            i <= steps.len(),
            r.len() == i,
            forall|j: int| 0 <= j < i ==> r@[j]@ == steps@[j]@,
        decreases steps.len() - i,
    {
        r.push(steps[i].clone());
        i = i + 1;
    }
    r
}

/// Whether an operator is OR.
pub fn is_or(op: &Option<LogicalOp>) -> (r: bool)
    ensures
        r == (*op == Some(LogicalOp::Or)),
{
    match op {
        Some(LogicalOp::Or) => true,
        _ => false,
    }
}

/// Group steps into segments separated by OR operators. Each segment lists
/// the indices of its steps.
pub fn group_into_segments(steps: &Vec<AssertionStep>) -> (segments: Vec<Vec<usize>>)
    ensures
        segments_of(step_views(steps@), segments.deep_view()),
{
    let n = steps.len();
    let mut segments: Vec<Vec<usize>> = Vec::new();
    if n == 0 {
        return segments;
    }
    let ghost sv = step_views(steps@);
    let mut current: Vec<usize> = Vec::new();
    current.push(0);
    let mut i: usize = 1;
    while i < n
        invariant
            1 <= i <= n,
            n == steps.len(),
            sv == step_views(steps@),
            current.len() >= 1,
            forall|k: int| 0 <= k < current.len() ==> (#[trigger] current@[k]) == current@[0] + k,
            current@[0] + current.len() == i,
            current@[0] == 0 || or_after(sv, current@[0] - 1),
            forall|k: int| current@[0] <= k < i - 1 ==> !or_after(sv, k),
            forall|s: int| 0 <= s < segments.len() ==> (#[trigger] segments@[s]).len() > 0,
            forall|s: int|
                0 <= s < segments.len() ==> is_segment(
                    sv,
                    (#[trigger] segments@[s])@.first() as int,
                    segments@[s]@.last() as int,
                ),
            forall|s: int, k: int|
                0 <= s < segments.len() && 0 <= k < segments@[s].len() ==> (
                #[trigger] segments@[s]@[k]) == segments@[s]@[0] + k,
            segments.len() > 0 ==> segments@[0]@[0] == 0,
            forall|s: int|
                0 <= s < segments.len() - 1 ==> (#[trigger] segments@[s + 1])@[0] == segments@[s]@.last()
                    + 1,
            segments.len() == 0 ==> current@[0] == 0,
            segments.len() > 0 ==> current@[0] == segments@.last()@.last() + 1,
        decreases n - i,
    {
        if is_or(&steps[i - 1].logical_op) {
            segments.push(current);
            current = Vec::new();
            current.push(i);
        } else {
            current.push(i);
        }
        i = i + 1;
    }
    segments.push(current);
    segments
}

/// Whether all the steps that `segment` lists passed.
pub fn segment_passes(steps: &Vec<AssertionStep>, segment: &Vec<usize>) -> (r: bool)
    requires
        forall|k: int| 0 <= k < segment.len() ==> segment@[k] < steps.len(),
    ensures
        r == segment_holds(step_views(steps@), segment@),
{
    let mut k: usize = 0;
    while k < segment.len()
        invariant
            k <= segment.len(),
            forall|j: int| 0 <= j < segment.len() ==> segment@[j] < steps.len(),
            forall|j: int| 0 <= j < k ==> step_views(steps@)[#[trigger] segment@[j] as int].passed,
        decreases segment.len() - k,
    {
        if !steps[segment[k]].passed {
            return false;
        }
        k = k + 1;
    }
    true
}

/// Whether any of the values is true.
pub fn any_true(values: &Vec<bool>) -> (r: bool)
    ensures
        r == exists|s: int| 0 <= s < values.len() && values@[s],
{
    let mut s: usize = 0;
    while s < values.len()
        invariant
            s <= values.len(),
            forall|j: int| 0 <= j < s ==> !values@[j],
        decreases values.len() - s,
    {
        if values[s] {
            return true;
        }
        s = s + 1;
    }
    false
}

/// The indices that a list of segments holds are all steps of the chain.
pub proof fn lemma_segments_in_range(steps: Seq<StepView>, segments: Seq<Seq<usize>>)
    requires
        segments_of(steps, segments),
    ensures
        forall|s: int, k: int|
            0 <= s < segments.len() && 0 <= k < segments[s].len() ==> (#[trigger] segments[s][k])
                < steps.len(),
{
    assert forall|s: int, k: int| 0 <= s < segments.len() && 0 <= k < segments[s].len() implies (
    #[trigger] segments[s][k]) < steps.len() by {}
}

/// A chain passes exactly when one of its listed segments holds.
pub proof fn lemma_passes_by_segments(steps: Seq<StepView>, segments: Seq<Seq<usize>>)
    requires
        segments_of(steps, segments),
        steps.len() > 0,
    ensures
        chain_passes(steps) == exists|s: int|
            0 <= s < segments.len() && segment_holds(steps, #[trigger] segments[s]),
{
    if chain_passes(steps) {
        let (lo, hi) = choose|lo: int, hi: int|
            #[trigger] is_segment(steps, lo, hi) && all_passed(steps, lo, hi);
        lemma_segment_listed(steps, segments, lo, hi);
        let s = choose|s: int|
            0 <= s < segments.len() && (#[trigger] segments[s]).first() == lo && segments[s].last()
                == hi;
        assert(segment_holds(steps, segments[s])) by {
            assert forall|k: int| 0 <= k < segments[s].len() implies steps[#[trigger] segments[s][k] as int].passed by {}
        }
    }
    if exists|s: int| 0 <= s < segments.len() && segment_holds(steps, #[trigger] segments[s]) {
        let s = choose|s: int| 0 <= s < segments.len() && segment_holds(steps, #[trigger] segments[s]);
        let lo = segments[s].first() as int;
        let hi = segments[s].last() as int;
        assert(all_passed(steps, lo, hi)) by {
            assert forall|k: int| lo <= k <= hi implies (#[trigger] steps[k]).passed by {
                assert(segments[s][k - lo] == segments[s][0] + (k - lo));
            }
        }
    }
}

/// Calculate if the entire chain passes.
pub fn chain_result(steps: &Vec<AssertionStep>) -> (passed: bool)
    ensures
        passed == chain_passes(step_views(steps@)),
{
    let ghost sv = step_views(steps@);
    if steps.len() == 0 {
        return true;
    }
    if steps.len() == 1 {
        proof {
            lemma_single_step(sv);
        }
        return steps[0].passed;
    }
    if steps.len() == 2 {
        proof {
            lemma_two_steps(sv);
        }
        return match steps[0].logical_op {
            Some(LogicalOp::And) => steps[0].passed && steps[1].passed,
            Some(LogicalOp::Or) => steps[0].passed || steps[1].passed,
            None => steps[0].passed && steps[1].passed,
        };
    }
    let segments = group_into_segments(steps);
    let ghost listed = segments.deep_view();
    proof {
        lemma_segments_in_range(sv, listed);
    }
    let mut results: Vec<bool> = Vec::new();
    let mut s: usize = 0;
    while s < segments.len()
        invariant
            s <= segments.len(),
            results.len() == s,
            sv == step_views(steps@),
            listed == segments.deep_view(),
            forall|t: int, k: int|
                0 <= t < listed.len() && 0 <= k < listed[t].len() ==> (#[trigger] listed[t][k])
                    < steps.len(),
            forall|t: int| 0 <= t < s ==> results@[t] == segment_holds(sv, #[trigger] listed[t]),
        decreases segments.len() - s,
    {
        assert(listed[s as int] =~= segments@[s as int]@);
        let held = segment_passes(steps, &segments[s]);
        results.push(held);
        s = s + 1;
    }
    let passed = any_true(&results);
    proof {
        lemma_passes_by_segments(sv, listed);
        if passed {
            let t = choose|t: int| 0 <= t < results.len() && results@[t];
            assert(segment_holds(sv, listed[t]));
        }
    }
    passed
}

} // verus!
