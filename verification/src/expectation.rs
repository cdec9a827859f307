//! The expectation: a value under test together with a chain that keeps its
//! own cleaned copy of the expression.
use crate::chain::{without_ampersands, AssertionChain};
use crate::finality::{
    after_emit, appended, fires, fresh, room_for_scope_end, room_to_evaluate, ChainState,
};
use crate::reporter::Reporter;
use crate::sentence::AssertionSentence;
use crate::steps::{chain_passes, copy_steps, AssertionStep};
use vstd::prelude::*;
use vstd::string::*;

verus! {

/// The core struct that holds a value being tested and provides the fluent
/// API for assertions.
#[derive(Debug)]
pub struct Expectation<T> {
    /// The value being tested
    pub value: T,
    /// The expression string, as written
    pub expr_str: &'static str,
    /// Whether the next step is negated
    pub negated: bool,
    /// The step ledger
    pub chain: AssertionChain,
    /// Flag to track if this is part of a chain
    pub in_chain: bool,
    /// Flag to mark the final step in a chain
    pub is_final: bool,
    /// Whether this expectation has been reported
    pub reported: bool,
}

impl<T> View for Expectation<T> {
    type V = ChainState;

    open spec fn view(&self) -> ChainState {
        ChainState {
            expr: self.expr_str@,
            negated: self.negated,
            steps: self.chain@.steps,
            in_chain: self.in_chain,
            is_final: self.is_final,
            reported: self.reported,
            elapsed: None,
        }
    }
}

impl<T> Expectation<T> {
    /// Creates a new expectation: no steps, final. Its chain reports under
    /// the expression without its ampersands.
    pub fn new(value: T, expr_str: &'static str) -> (r: Self)
        ensures
            r.value == value,
            r@ == fresh(expr_str@),
            r.chain@.expr == without_ampersands(expr_str@),
    {
        Expectation {
            value,
            expr_str,
            negated: false,
            chain: AssertionChain::new(expr_str),
            in_chain: false,
            is_final: true,
            reported: false,
        }
    }

    /// Add an assertion step and get back a cloned expectation for chaining.
    /// The step takes the pending negation, which is then used up.
    pub fn add_assertion_step(&self, sentence: AssertionSentence, result: bool) -> (r: Self) where
        T: Clone,

        ensures
            cloned(self.value, r.value),
            r@ == appended(self@, sentence@, result),
            r.chain@.expr == self.chain@.expr,
    {
        let sentence = sentence.with_negation(self.negated).with_subject(self.expr_str);
        let passed = if self.negated {
            !result
        } else {
            result
        };
        let mut steps = copy_steps(&self.chain.steps);
        steps.push(AssertionStep { sentence, passed, logical_op: None });
        let r = Expectation {
            value: self.value.clone(),
            expr_str: self.expr_str,
            negated: false,
            chain: AssertionChain { expr_str: self.chain.expr_str.clone(), steps },
            in_chain: true,
            is_final: true,
            reported: false,
        };
        assert(r@.steps =~= appended(self@, sentence@, result).steps);
        r
    }

    /// Mark this expectation as non-final (intermediate step in a chain).
    pub fn mark_as_intermediate(&mut self)
        ensures
            final(self).value == old(self).value,
            final(self).chain == old(self).chain,
            final(self)@ == (ChainState { is_final: false, ..old(self)@ }),
    {
        self.is_final = false;
    }

    /// Mark this expectation as final (last step in a chain).
    pub fn mark_as_final(&mut self)
        ensures
            final(self).value == old(self).value,
            final(self).chain == old(self).chain,
            final(self)@ == (ChainState { is_final: true, ..old(self)@ }),
    {
        self.is_final = true;
    }

    /// Explicitly evaluate the assertion chain. Returns true if the
    /// assertion passed, false otherwise. The outcome is reported, under the
    /// chain's cleaned expression, unless it has been reported before.
    pub fn evaluate(self, reporter: &mut Reporter) -> (passed: bool)
        requires
            old(reporter).well_formed(),
            room_to_evaluate(old(reporter)@, self@),
        ensures
            passed == chain_passes(self@.steps),
            final(reporter).well_formed(),
            final(reporter)@ == if self.reported {
                old(reporter)@
            } else {
                after_emit(old(reporter)@, self.chain@.expr, self@.steps, passed)
            },
    {
        if self.reported {
            return self.chain.calculate_chain_result();
        }
        self.chain.evaluate(reporter)
    }

    /// Whether the end of this expectation's scope evaluates and reports it.
    pub fn fires_at_scope_end(&self, unwinding: bool, guard_held: bool) -> (r: bool)
        ensures
            r == fires(self@, unwinding, guard_held),
    {
        self.chain.steps.len() > 0 && self.is_final && !self.reported && !unwinding && !guard_held
    }

    /// The end of this expectation's scope. While it is final, has steps and
    /// has not been reported, and unless the thread is unwinding or another
    /// evaluation is in progress, it is evaluated and reported now.
    pub fn finalize(&mut self, unwinding: bool, reporter: &mut Reporter)
        requires
            old(reporter).well_formed(),
            room_for_scope_end(old(reporter)@, old(self)@, unwinding),
        ensures
            final(self).value == old(self).value,
            final(self).chain == old(self).chain,
            final(self)@ == crate::finality::chain_after_scope_end(
                old(self)@,
                unwinding,
                old(reporter)@.evaluating,
            ),
            final(reporter).well_formed(),
            final(reporter)@ == if fires(old(self)@, unwinding, old(reporter)@.evaluating) {
                after_emit(
                    old(reporter)@,
                    old(self).chain@.expr,
                    old(self)@.steps,
                    chain_passes(old(self)@.steps),
                )
            } else {
                old(reporter)@
            },
    {
        if self.chain.steps.len() == 0 || unwinding {
            return ;
        }
        if !self.is_final || self.reported {
            return ;
        }
        let should_evaluate = reporter.begin_evaluation();
        if should_evaluate {
            let chain = self.chain.clone();
            let _ = chain.evaluate(reporter);
            self.reported = true;
            reporter.end_evaluation();
        }
    }
}

} // verus!
