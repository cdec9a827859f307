//! The finalization protocol: when a chain is evaluated and reported.
//!
//! A chain is either final, ready to be reported on its own, or
//! intermediate, waiting for more steps. A matcher call makes it final, AND
//! and OR make it intermediate, NOT leaves it as it is. A chain is reported
//! at most once: by an explicit evaluation, or automatically when its scope
//! ends while it is final, has steps, no unwinding is under way and no other
//! evaluation is in progress on the thread.
use crate::reporter::{after_result, ReporterView};
use crate::sentence::SentenceView;
use crate::steps::{
    chain_passes, continued, lemma_and_adds_a_condition, lemma_or_adds_an_alternative,
    with_last_logic, LogicalOp, StepView,
};
use crate::test_result::ResultView;
use vstd::prelude::*;

verus! {

/// The state of one chain, without the value under test.
pub struct ChainState {
    /// The source text of the expression under test.
    pub expr: Seq<char>,
    /// Whether the next step is negated.
    pub negated: bool,
    /// The step ledger.
    pub steps: Seq<StepView>,
    /// Whether the chain has taken part in chaining.
    pub in_chain: bool,
    /// Whether the chain is final rather than intermediate.
    pub is_final: bool,
    /// Whether the chain has been reported.
    pub reported: bool,
    /// How long it took to obtain the value, in nanoseconds, where the host
    /// measured it.
    pub elapsed: Option<u64>,
}

/// The chain that wrapping a value gives: no steps, final, not negated.
pub open spec fn fresh(expr: Seq<char>) -> ChainState {
    ChainState {
        expr,
        negated: false,
        steps: Seq::empty(),
        in_chain: false,
        is_final: true,
        reported: false,
        elapsed: None,
    }
}

/// The chain that wrapping a value gives when the host measured how long the
/// value took.
pub open spec fn fresh_timed(expr: Seq<char>, elapsed: u64) -> ChainState {
    ChainState { elapsed: Some(elapsed), ..fresh(expr) }
}

/// The chain with one more step that fails whatever the pending negation:
/// the first word of `message` is its verb, the rest its object.
pub open spec fn failed_with(c: ChainState, message: Seq<char>) -> ChainState {
    ChainState {
        negated: false,
        steps: c.steps.push(
            crate::chain::recorded_step(
                c.expr,
                crate::chain::leading_word(message),
                crate::chain::after_leading_word(message),
                false,
                false,
            ),
        ),
        in_chain: true,
        is_final: true,
        reported: false,
        ..c
    }
}

/// The step that a matcher call records on chain `c`: the sentence takes the
/// chain's expression as subject and its pending negation, and the step
/// passes when the raw outcome differs from the negation.
pub open spec fn step_for(c: ChainState, sentence: SentenceView, result: bool) -> StepView {
    StepView {
        sentence: SentenceView { subject: c.expr, negated: c.negated, ..sentence },
        passed: result != c.negated,
        logical_op: None,
    }
}

/// The chain that a matcher call returns: one more step, the negation used
/// up, final, not reported yet.
pub open spec fn appended(c: ChainState, sentence: SentenceView, result: bool) -> ChainState {
    ChainState {
        negated: false,
        steps: c.steps.push(step_for(c, sentence, result)),
        in_chain: true,
        is_final: true,
        reported: false,
        ..c
    }
}

/// The chain after NOT: the negation of the next step is toggled, finality
/// is untouched.
pub open spec fn toggled(c: ChainState) -> ChainState {
    ChainState { negated: !c.negated, ..c }
}

/// The chain after AND or OR: the last step carries the operator and the
/// chain is intermediate.
pub open spec fn joined(c: ChainState, op: LogicalOp) -> ChainState {
    ChainState { steps: with_last_logic(c.steps, op), in_chain: true, is_final: false, ..c }
}

/// Whether an outcome is reported at all: a failure always, a success of
/// any chain with steps. Only the success of an empty chain, which has
/// asserted nothing, is not reported.
pub open spec fn emits(steps: Seq<StepView>, passed: bool) -> bool {
    !passed || steps.len() > 0
}

/// Whether the reporter has room for what a chain with these steps emits
/// with the outcome `passed`: room in the counter of that outcome where
/// something is emitted, and none needed where nothing is.
pub open spec fn room_to_emit(r: ReporterView, steps: Seq<StepView>, passed: bool) -> bool {
    emits(steps, passed) ==> if passed {
        r.session.passed_count < usize::MAX
    } else {
        r.session.failed_count < usize::MAX
    }
}

/// Whether the reporter has room for an explicit evaluation of `c`.
pub open spec fn room_to_evaluate(r: ReporterView, c: ChainState) -> bool {
    !c.reported ==> room_to_emit(r, c.steps, chain_passes(c.steps))
}

/// Whether the reporter has room for the end of the scope of `c`.
pub open spec fn room_for_scope_end(r: ReporterView, c: ChainState, unwinding: bool) -> bool {
    fires(c, unwinding, r.evaluating) ==> room_to_emit(r, c.steps, chain_passes(c.steps))
}

/// The reporter after a chain with these steps has emitted the outcome
/// `passed` under the name `expr`.
pub open spec fn after_emit(
    r: ReporterView,
    expr: Seq<char>,
    steps: Seq<StepView>,
    passed: bool,
) -> ReporterView {
    if emits(steps, passed) {
        after_result(r, passed, ResultView { expr, steps, passed })
    } else {
        r
    }
}

/// The reporter after an explicit evaluation of `c`: the chain's value is
/// emitted unless the chain has been reported before.
pub open spec fn after_evaluate(r: ReporterView, c: ChainState) -> ReporterView {
    if c.reported {
        r
    } else {
        after_emit(r, c.expr, c.steps, chain_passes(c.steps))
    }
}

/// Whether the end of a chain's scope evaluates and reports it.
pub open spec fn fires(c: ChainState, unwinding: bool, guard_held: bool) -> bool {
    c.steps.len() > 0 && c.is_final && !c.reported && !unwinding && !guard_held
}

/// The chain after the end of its scope.
pub open spec fn chain_after_scope_end(
    c: ChainState,
    unwinding: bool,
    guard_held: bool,
) -> ChainState {
    if fires(c, unwinding, guard_held) {
        ChainState { reported: true, ..c }
    } else {
        c
    }
}

/// The reporter after the end of the scope of chain `c`.
pub open spec fn reporter_after_scope_end(
    r: ReporterView,
    c: ChainState,
    unwinding: bool,
) -> ReporterView {
    if fires(c, unwinding, r.evaluating) {
        after_emit(r, c.expr, c.steps, chain_passes(c.steps))
    } else {
        r
    }
}

/// Negation affects only the step appended next: after NOT, the first
/// matcher call records its outcome under the toggled negation and uses the
/// negation up; the second records its outcome as it is.
pub proof fn lemma_negation_is_consumed(
    c: ChainState,
    first: SentenceView,
    x: bool,
    second: SentenceView,
    y: bool,
)
    ensures
        ({
            let chain = appended(appended(toggled(c), first, x), second, y);
            let n = c.steps.len() as int;
            &&& chain.steps.len() == n + 2
            &&& chain.steps.take(n) == c.steps
            &&& chain.steps[n].sentence.negated == !c.negated
            &&& chain.steps[n].passed == (x != !c.negated)
            &&& !chain.steps[n + 1].sentence.negated
            &&& chain.steps[n + 1].passed == y
            &&& !chain.negated
        }),
{
    let chain = appended(appended(toggled(c), first, x), second, y);
}

/// What the modifiers mean for the value of a chain: a matcher call after
/// `or()` adds an alternative, so that the longer chain passes when the
/// chain before passes or the new step does; a matcher call after `and()`
/// adds a condition, so that the longer chain passes only if the chain
/// before passes, and with a new step that passed exactly when it does.
pub proof fn lemma_modifiers_combine(c: ChainState, sentence: SentenceView, result: bool)
    requires
        c.steps.len() > 0,
    ensures
        ({
            let step = step_for(c, sentence, result);
            let either = appended(joined(c, LogicalOp::Or), sentence, result);
            let both = appended(joined(c, LogicalOp::And), sentence, result);
            &&& step.passed == (result != c.negated)
            &&& chain_passes(either.steps) == (chain_passes(c.steps) || step.passed)
            &&& chain_passes(both.steps) ==> chain_passes(c.steps)
            &&& step.passed ==> chain_passes(both.steps) == chain_passes(c.steps)
        }),
{
    let step = step_for(c, sentence, result);
    lemma_or_adds_an_alternative(c.steps, step);
    lemma_and_adds_a_condition(c.steps, step);
    assert(appended(joined(c, LogicalOp::Or), sentence, result).steps =~= continued(
        c.steps,
        LogicalOp::Or,
        step,
    ));
    assert(appended(joined(c, LogicalOp::And), sentence, result).steps =~= continued(
        c.steps,
        LogicalOp::And,
        step,
    ));
}

/// A chain that AND or OR made intermediate is never reported at the end of
/// its scope, whatever else holds; the chain that the next matcher call
/// returns is, as soon as nothing stands in the way.
pub proof fn lemma_only_final_chains_fire(
    c: ChainState,
    op: LogicalOp,
    sentence: SentenceView,
    result: bool,
    unwinding: bool,
    guard_held: bool,
)
    ensures
        !fires(joined(c, op), unwinding, guard_held),
        fires(appended(joined(c, op), sentence, result), false, false),
{
}

/// The end of the scope of an intermediate chain changes neither the chain
/// nor the reporter.
pub proof fn lemma_intermediate_scope_end(c: ChainState, r: ReporterView, unwinding: bool)
    requires
        !c.is_final,
    ensures
        chain_after_scope_end(c, unwinding, r.evaluating) == c,
        reporter_after_scope_end(r, c, unwinding) == r,
{
}

/// A final chain with steps that has not been reported is counted once at
/// the end of its scope, where nothing is in its way: as a success or as a
/// failure by its value, under its expression and with its steps. The chain
/// is marked as reported, and the guard is as free afterwards as it was
/// before, whether the chain passed or failed.
pub proof fn lemma_final_chain_is_counted(c: ChainState, r: ReporterView)
    requires
        c.steps.len() > 0,
        c.is_final,
        !c.reported,
        !r.evaluating,
    ensures
        ({
            let passed = chain_passes(c.steps);
            let result = ResultView { expr: c.expr, steps: c.steps, passed };
            let after = reporter_after_scope_end(r, c, false);
            &&& fires(c, false, r.evaluating)
            &&& chain_after_scope_end(c, false, r.evaluating) == (ChainState { reported: true, ..c })
            &&& after == after_result(r, passed, result)
            &&& after.session == crate::reporter::counted(r.session, passed, result)
            &&& !after.evaluating
        }),
{
}

/// An explicit evaluation reports whatever the finality of the chain: of a
/// chain with steps that has not been reported, intermediate or final, with
/// or without an operator after its last step, the outcome is counted once.
pub proof fn lemma_evaluation_reports_regardless_of_finality(c: ChainState, r: ReporterView)
    requires
        c.steps.len() > 0,
        !c.reported,
    ensures
        ({
            let passed = chain_passes(c.steps);
            let result = ResultView { expr: c.expr, steps: c.steps, passed };
            &&& after_evaluate(r, c) == after_result(r, passed, result)
            &&& after_evaluate(r, c) == after_evaluate(r, ChainState { is_final: !c.is_final, ..c })
        }),
{
}

/// A chain is reported once: an explicit evaluation after the automatic one
/// has fired leaves the reporter, and with it the session totals, as they
/// are; and so does a second end of scope.
pub proof fn lemma_reported_once(c: ChainState, r: ReporterView, unwinding: bool)
    requires
        fires(c, unwinding, r.evaluating),
    ensures
        ({
            let c1 = chain_after_scope_end(c, unwinding, r.evaluating);
            let r1 = reporter_after_scope_end(r, c, unwinding);
            &&& after_evaluate(r1, c1) == r1
            &&& reporter_after_scope_end(r1, c1, unwinding) == r1
            &&& chain_after_scope_end(c1, unwinding, r1.evaluating) == c1
        }),
{
}

/// An empty chain passes and its evaluation leaves the reporter as it is.
pub proof fn lemma_empty_chain_is_silent(c: ChainState, r: ReporterView)
    requires
        c.steps.len() == 0,
    ensures
        chain_passes(c.steps),
        after_evaluate(r, c) == r,
{
}

} // verus!
