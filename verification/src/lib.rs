//! A fluent assertion engine.
//!
//! A test wraps a value in an [`assertion::Assertion`] and attaches checks
//! to it by name: `to_be_greater_than`, `to_contain`, and so on. Checks are
//! joined by `and()` and `or()` and negated by `not()`. Each check records a
//! step; the steps form a chain.
//!
//! The engine decides three things, and proves what it decides:
//!
//! - what a chain comes to: runs of steps joined by AND form segments, the
//!   chain passes when all steps of one segment passed, and its message lists
//!   the sentences of all steps with the operators between them
//!   ([`steps`], [`chain`]);
//! - when a chain is reported: at most once, by an explicit evaluation or
//!   when the scope of a final chain ends ([`finality`]);
//! - what becomes of a result: it is counted, rendered unless an identical
//!   one was rendered before, and a failure is recorded and raised
//!   ([`reporter`]).
//!
//! The engine does no input or output and does not panic. What has to
//! happen outside of it, it asks of its host as a list of actions.
pub mod assertion;
pub mod chain;
pub mod config;
pub mod events;
pub mod expectation;
pub mod finality;
pub mod fixtures;
pub mod matchers;
pub mod modifiers;
pub mod prelude;
pub mod reporter;
pub mod sentence;
pub mod steps;
pub mod test_result;
pub mod text;
pub mod timing;

pub use config::{auto_initialize_for_tests, config, initialize, Config};
pub use reporter::Reporter;
