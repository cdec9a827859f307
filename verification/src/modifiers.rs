//! The modifiers of a chain: AND and OR join the next step to the last one
//! and make the chain intermediate; NOT negates the next step. The time
//! modifiers hold the time that a value took against a limit and add a
//! failing step where it misses the limit.
use crate::assertion::Assertion;
use crate::expectation::Expectation;
use crate::finality::{failed_with, joined, toggled};
use crate::steps::LogicalOp;
use crate::timing::{describe_timing, timing_message};
use vstd::prelude::*;

verus! {

/// AND modifier trait for chaining assertions.
pub trait AndModifier<T> {
    /// Creates an AND-chained assertion that allows for multiple assertions
    /// on the same value.
    fn and(self) -> Self;
}

/// OR modifier trait for chaining assertions.
pub trait OrModifier<T> {
    /// Creates an OR-chained assertion that allows for alternative
    /// assertions on the same value.
    fn or(self) -> Self;
}

/// Not modifier trait for negating assertions.
pub trait NotModifier<T> {
    /// Creates a negated assertion.
    fn not(self) -> Self;
}

/// Trait for adding an 'after' time constraint to an assertion.
pub trait AfterModifier<T> {
    /// Asserts that the operation took more than the specified duration, in
    /// nanoseconds.
    fn after(self, duration: u64) -> Self;
}

/// Trait for adding a 'before' time constraint to an assertion.
pub trait BeforeModifier<T> {
    /// Asserts that the operation took less than the specified duration, in
    /// nanoseconds.
    fn before(self, duration: u64) -> Self;
}

/// Trait for adding a 'by_time' constraint to an assertion.
pub trait ByTimeModifier<T> {
    /// Asserts that the operation was complete by the deadline. `now` is the
    /// current instant; both count nanoseconds from the same point.
    fn by_time(self, deadline: u64, now: u64) -> Self;
}

impl<T: Clone + core::fmt::Debug> AfterModifier<T> for Assertion<T> {
    fn after(self, duration: u64) -> (r: Self)
        ensures
            r@ == match self@.elapsed {
                Some(elapsed) if elapsed <= duration => failed_with(
                    self@,
                    timing_message(
                        "Expected operation to take more than "@,
                        duration,
                        ", but it took "@,
                        elapsed,
                    ),
                ),
                _ => self@,
            },
            if self@.elapsed matches Some(elapsed) && elapsed <= duration {
                cloned(self.value, r.value)
            } else {
                r.value == self.value
            },
    {
        if let Some(elapsed) = self.elapsed {
            if elapsed <= duration {
                let message = describe_timing(
                    "Expected operation to take more than ",
                    duration,
                    ", but it took ",
                    elapsed,
                );
                return self.with_custom_message(message.as_str());
            }
        }
        self
    }
}

impl<T: Clone + core::fmt::Debug> BeforeModifier<T> for Assertion<T> {
    fn before(self, duration: u64) -> (r: Self)
        ensures
            r@ == match self@.elapsed {
                Some(elapsed) if elapsed >= duration => failed_with(
                    self@,
                    timing_message(
                        "Expected operation to complete in less than "@,
                        duration,
                        ", but it took "@,
                        elapsed,
                    ),
                ),
                _ => self@,
            },
            if self@.elapsed matches Some(elapsed) && elapsed >= duration {
                cloned(self.value, r.value)
            } else {
                r.value == self.value
            },
    {
        if let Some(elapsed) = self.elapsed {
            if elapsed >= duration {
                let message = describe_timing(
                    "Expected operation to complete in less than ",
                    duration,
                    ", but it took ",
                    elapsed,
                );
                return self.with_custom_message(message.as_str());
            }
        }
        self
    }
}

impl<T: Clone + core::fmt::Debug> ByTimeModifier<T> for Assertion<T> {
    fn by_time(self, deadline: u64, now: u64) -> (r: Self)
        ensures
            r@ == if now > deadline {
                failed_with(
                    self@,
                    timing_message(
                        "Expected operation to complete by "@,
                        deadline,
                        ", but it completed at "@,
                        now,
                    ),
                )
            } else {
                self@
            },
            if now > deadline {
                cloned(self.value, r.value)
            } else {
                r.value == self.value
            },
    {
        if now > deadline {
            let message = describe_timing(
                "Expected operation to complete by ",
                deadline,
                ", but it completed at ",
                now,
            );
            return self.with_custom_message(message.as_str());
        }
        self
    }
}

impl<T: Clone> AndModifier<T> for Assertion<T> {
    fn and(self) -> (r: Self)
        ensures
            r.value == self.value,
            r@ == joined(self@, LogicalOp::And),
    {
        let mut result = self;
        result.mark_as_intermediate();
        result.set_last_logic(LogicalOp::And);
        result.in_chain = true;
        result
    }
}

impl<T: Clone> OrModifier<T> for Assertion<T> {
    fn or(self) -> (r: Self)
        ensures
            r.value == self.value,
            r@ == joined(self@, LogicalOp::Or),
    {
        let mut result = self;
        result.mark_as_intermediate();
        result.set_last_logic(LogicalOp::Or);
        result.in_chain = true;
        result
    }
}

impl<T: Clone> NotModifier<T> for Assertion<T> {
    fn not(self) -> (r: Self)
        ensures
            r.value == self.value,
            r@ == toggled(self@),
    {
        let mut result = self;
        result.negated = !result.negated;
        result
    }
}

impl<T: Clone> AndModifier<T> for Expectation<T> {
    fn and(self) -> (r: Self)
        ensures
            r.value == self.value,
            r.chain@.expr == self.chain@.expr,
            r@ == joined(self@, LogicalOp::And),
    {
        let mut result = self;
        result.mark_as_intermediate();
        result.chain.set_last_logic(LogicalOp::And);
        result.in_chain = true;
        result
    }
}

impl<T: Clone> OrModifier<T> for Expectation<T> {
    fn or(self) -> (r: Self)
        ensures
            r.value == self.value,
            r.chain@.expr == self.chain@.expr,
            r@ == joined(self@, LogicalOp::Or),
    {
        let mut result = self;
        result.mark_as_intermediate();
        result.chain.set_last_logic(LogicalOp::Or);
        result.in_chain = true;
        result
    }
}

impl<T: Clone> NotModifier<T> for Expectation<T> {
    fn not(self) -> (r: Self)
        ensures
            r.value == self.value,
            r.chain == self.chain,
            r@ == toggled(self@),
    {
        let mut result = self;
        result.negated = !result.negated;
        result
    }
}

} // verus!
