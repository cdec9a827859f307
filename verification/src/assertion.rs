//! The assertion: a value under test together with its chain of steps.
use crate::chain::AssertionChain;
use crate::finality::{
    after_emit, after_evaluate, appended, chain_after_scope_end, failed_with, fires, fresh,
    fresh_timed, reporter_after_scope_end, room_for_scope_end, room_to_emit, room_to_evaluate,
    ChainState,
};
use crate::reporter::Reporter;
use crate::sentence::AssertionSentence;
use crate::steps::{
    chain_passes, chain_result, copy_steps, group_into_segments, segments_of, step_views,
    with_last_logic, AssertionStep, LogicalOp, StepView,
};
use crate::test_result::{step_results, AssertionResult, ResultView};
use vstd::prelude::*;
use vstd::string::*;

verus! {

/// Represents the complete assertion with all steps.
#[derive(Debug)]
pub struct Assertion<T> {
    /// The value being tested
    pub value: T,
    /// The expression string (variable name)
    pub expr_str: &'static str,
    /// Whether the next step is negated
    pub negated: bool,
    /// All steps in the assertion chain
    pub steps: Vec<AssertionStep>,
    /// Flag to track if this is part of a chain
    pub in_chain: bool,
    /// Flag to mark the final step in a chain
    pub is_final: bool,
    /// Whether this assertion has been reported
    pub reported: bool,
    /// How long it took to obtain the value, in nanoseconds, if measured
    pub elapsed: Option<u64>,
}

impl<T> View for Assertion<T> {
    type V = ChainState;

    open spec fn view(&self) -> ChainState {
        ChainState {
            expr: self.expr_str@,
            negated: self.negated,
            steps: step_views(self.steps@),
            in_chain: self.in_chain,
            is_final: self.is_final,
            reported: self.reported,
            elapsed: self.elapsed,
        }
    }
}

impl<T: Clone> Clone for Assertion<T> {
    fn clone(&self) -> (r: Self)
        ensures
            cloned(self.value, r.value),
            r@ == self@,
    {
        Assertion {
            value: self.value.clone(),
            expr_str: self.expr_str,
            negated: self.negated,
            steps: copy_steps(&self.steps),
            in_chain: self.in_chain,
            is_final: self.is_final,
            reported: self.reported,
            elapsed: self.elapsed,
        }
    }
}

impl<T> Assertion<T> {
    /// Creates a new assertion: no steps, final.
    pub fn new(value: T, expr_str: &'static str) -> (r: Self)
        ensures
            r.value == value,
            r@ == fresh(expr_str@),
    {
        let r = Assertion {
            value,
            expr_str,
            negated: false,
            steps: Vec::new(),
            in_chain: false,
            is_final: true,
            reported: false,
            elapsed: None,
        };
        assert(r@.steps =~= Seq::<StepView>::empty());
        r
    }

    /// Creates a new assertion for a value that took `elapsed` nanoseconds
    /// to obtain.
    pub fn with_elapsed(value: T, expr_str: &'static str, elapsed: u64) -> (r: Self)
        ensures
            r.value == value,
            r@ == fresh_timed(expr_str@, elapsed),
    {
        let r = Assertion {
            value,
            expr_str,
            negated: false,
            steps: Vec::new(),
            in_chain: false,
            is_final: true,
            reported: false,
            elapsed: Some(elapsed),
        };
        assert(r@.steps =~= Seq::<StepView>::empty());
        r
    }

    /// Add a step that fails with `message` and get back a cloned assertion
    /// for chaining. The first word of the message becomes the verb of the
    /// step's sentence, the rest its object.
    pub fn with_custom_message(&self, message: &str) -> (r: Self) where T: Clone
        ensures
            cloned(self.value, r.value),
            r@ == failed_with(self@, message@),
    {
        let mut ledger = AssertionChain {
            expr_str: String::from_str(self.expr_str),
            steps: copy_steps(&self.steps),
        };
        ledger.add_step(message, false, false);
        Assertion {
            value: self.value.clone(),
            expr_str: self.expr_str,
            negated: false,
            steps: ledger.steps,
            in_chain: true,
            is_final: true,
            reported: false,
            elapsed: self.elapsed,
        }
    }

    /// Add an assertion step and get back a cloned assertion for chaining.
    /// The step takes the pending negation, which is then used up.
    pub fn add_step(&self, sentence: AssertionSentence, result: bool) -> (r: Self) where T: Clone
        ensures
            cloned(self.value, r.value),
            r@ == appended(self@, sentence@, result),
    {
        let sentence = sentence.with_negation(self.negated).with_subject(self.expr_str);
        let passed = if self.negated {
            !result
        } else {
            result
        };
        let mut new_steps = copy_steps(&self.steps);
        new_steps.push(AssertionStep { sentence, passed, logical_op: None });
        let r = Assertion {
            value: self.value.clone(),
            expr_str: self.expr_str,
            negated: false,
            steps: new_steps,
            in_chain: true,
            is_final: true,
            reported: false,
            elapsed: self.elapsed,
        };
        assert(r@.steps =~= appended(self@, sentence@, result).steps);
        r
    }

    /// Set the logical operation for the last step.
    pub fn set_last_logic(&mut self, op: LogicalOp)
        ensures
            final(self).value == old(self).value,
            final(self)@ == (ChainState {
                steps: with_last_logic(old(self)@.steps, op),
                ..old(self)@
            }),
    {
        match self.steps.pop() {
            Some(last) => {
                let last = AssertionStep { logical_op: Some(op), ..last };
                self.steps.push(last);
                assert(self@.steps =~= with_last_logic(old(self)@.steps, op));
            },
            None => {},
        }
    }

    /// Mark this assertion as non-final (intermediate step in a chain).
    pub fn mark_as_intermediate(&mut self)
        ensures
            final(self).value == old(self).value,
            final(self)@ == (ChainState { is_final: false, ..old(self)@ }),
    {
        self.is_final = false;
    }

    /// Mark this assertion as final (last step in a chain).
    pub fn mark_as_final(&mut self)
        ensures
            final(self).value == old(self).value,
            final(self)@ == (ChainState { is_final: true, ..old(self)@ }),
    {
        self.is_final = true;
    }

    /// Calculate if the entire chain passes.
    pub fn calculate_chain_result(&self) -> (passed: bool)
        ensures
            passed == chain_passes(self@.steps),
    {
        chain_result(&self.steps)
    }

    /// Group steps into segments separated by OR operators.
    pub fn group_steps_into_segments(&self) -> (segments: Vec<Vec<usize>>)
        ensures
            segments_of(self@.steps, segments.deep_view()),
    {
        group_into_segments(&self.steps)
    }

    /// The value-independent record of this chain with the given outcome.
    pub fn to_result(&self, passed: bool) -> (r: AssertionResult)
        ensures
            r@ == (ResultView { expr: self@.expr, steps: self@.steps, passed }),
    {
        AssertionResult {
            expr_str: String::from_str(self.expr_str),
            steps: step_results(&self.steps),
            passed,
        }
    }

    /// Whether the reporter has room for an explicit evaluation of this
    /// chain: room in the counter of the chain's outcome where the evaluation
    /// reports, and none needed where it does not.
    pub fn has_room_to_evaluate(&self, reporter: &Reporter) -> (r: bool)
        ensures
            r == room_to_evaluate(reporter@, self@),
    {
        if self.reported {
            return true;
        }
        let passed = self.calculate_chain_result();
        (passed && self.steps.len() == 0) || reporter.can_count_as(passed)
    }

    /// Whether the reporter has room for the end of this chain's scope: room
    /// in the counter of the chain's outcome where the chain is reported then,
    /// and none needed where it is not.
    pub fn has_room_for_scope_end(&self, unwinding: bool, reporter: &Reporter) -> (r: bool)
        ensures
            r == room_for_scope_end(reporter@, self@, unwinding),
    {
        if !self.fires_at_scope_end(unwinding, reporter.is_evaluating()) {
            return true;
        }
        reporter.can_count_as(self.calculate_chain_result())
    }

    /// Explicitly evaluate the assertion chain. Returns true if the
    /// assertion passed, false otherwise. The outcome is reported unless the
    /// chain has been reported before.
    pub fn evaluate(self, reporter: &mut Reporter) -> (passed: bool)
        requires
            old(reporter).well_formed(),
            room_to_evaluate(old(reporter)@, self@),
        ensures
            passed == chain_passes(self@.steps),
            final(reporter).well_formed(),
            final(reporter)@ == after_evaluate(old(reporter)@, self@),
    {
        let passed = self.calculate_chain_result();
        if !self.reported {
            self.emit_result(passed, reporter);
        }
        passed
    }

    /// Report the outcome `passed` of this chain: a failure always, a success
    /// where the chain has steps.
    pub fn emit_result(&self, passed: bool, reporter: &mut Reporter)
        requires
            old(reporter).well_formed(),
            room_to_emit(old(reporter)@, self@.steps, passed),
        ensures
            final(reporter).well_formed(),
            final(reporter)@ == after_emit(old(reporter)@, self@.expr, self@.steps, passed),
    {
        if !passed || self.steps.len() > 0 {
            reporter.on_result(passed, self.to_result(passed));
        }
    }

    /// Whether the end of this assertion's scope evaluates and reports it:
    /// it has steps, is final and has not been reported, the thread is not
    /// unwinding and no other evaluation is in progress.
    pub fn fires_at_scope_end(&self, unwinding: bool, guard_held: bool) -> (r: bool)
        ensures
            r == fires(self@, unwinding, guard_held),
    {
        self.steps.len() > 0 && self.is_final && !self.reported && !unwinding && !guard_held
    }

    /// The end of this assertion's scope. While it is final, has steps and
    /// has not been reported, and unless the thread is unwinding or another
    /// evaluation is in progress, it is evaluated and reported now.
    pub fn finalize(&mut self, unwinding: bool, reporter: &mut Reporter)
        requires
            old(reporter).well_formed(),
            room_for_scope_end(old(reporter)@, old(self)@, unwinding),
        ensures
            final(self).value == old(self).value,
            final(self)@ == chain_after_scope_end(old(self)@, unwinding, old(reporter)@.evaluating),
            final(reporter).well_formed(),
            final(reporter)@ == reporter_after_scope_end(old(reporter)@, old(self)@, unwinding),
    {
        if self.steps.len() == 0 || unwinding {
            return ;
        }
        if !self.is_final || self.reported {
            return ;
        }
        let should_evaluate = reporter.begin_evaluation();
        if should_evaluate {
            let passed = self.calculate_chain_result();
            self.emit_result(passed, reporter);
            self.reported = true;
            reporter.end_evaluation();
        }
    }
}

} // verus!
