//! Time constraints on values that take time to obtain.
//!
//! The engine does not measure time. The host measures, in nanoseconds, how
//! long a value took or when it arrived, and the functions here say what
//! follows.
use vstd::prelude::*;
use vstd::std_specs::cmp::PartialEqSpec;
use vstd::string::*;

verus! {

/// Represents a time constraint for asynchronous assertions. Durations and
/// instants are in nanoseconds; instants count from a reference point of the
/// host's choosing.
#[derive(Debug, Clone, Copy, PartialEq, Eq, Structural)]
pub enum TimeConstraint {
    /// The value should arrive before the specified duration has elapsed
    Before(u64),
    /// The value should arrive after the specified duration has elapsed
    After(u64),
    /// The value should arrive by the specified instant
    ByTime(u64),
}

/// How an operation stands to a time constraint.
#[derive(Debug, Clone, Copy, PartialEq, Eq, Structural)]
pub enum Timing {
    /// The constraint is met.
    InTime,
    /// The operation took as long as the limit, or longer.
    TooSlow,
    /// The operation took no longer than the minimum.
    TooFast,
    /// The operation ended after the deadline.
    TooLate,
}

/// The outcome of an asynchronous assertion.
#[derive(Debug, Clone, Copy, PartialEq, Eq, Structural)]
pub enum AsyncOutcome {
    /// Value and timing are as expected.
    Passed,
    /// The operation gave another value than expected.
    WrongValue,
    /// The operation failed with another error than expected.
    WrongError,
    /// The operation succeeded where an error was expected.
    NotAnError,
    /// The operation missed its time constraint.
    Mistimed(Timing),
}

/// How an operation that took `elapsed` and ended at `finished_at` stands to
/// a constraint.
pub open spec fn timing_of(constraint: TimeConstraint, elapsed: u64, finished_at: u64) -> Timing {
    match constraint {
        TimeConstraint::Before(limit) => if elapsed >= limit {
            Timing::TooSlow
        } else {
            Timing::InTime
        },
        TimeConstraint::After(minimum) => if elapsed <= minimum {
            Timing::TooFast
        } else {
            Timing::InTime
        },
        TimeConstraint::ByTime(deadline) => if finished_at > deadline {
            Timing::TooLate
        } else {
            Timing::InTime
        },
    }
}

/// The outcome of expecting a value within a constraint: a wrong value is
/// reported before the timing.
pub open spec fn resolution_outcome(value_matches: bool, timing: Timing) -> AsyncOutcome {
    if !value_matches {
        AsyncOutcome::WrongValue
    } else if timing != Timing::InTime {
        AsyncOutcome::Mistimed(timing)
    } else {
        AsyncOutcome::Passed
    }
}

/// The outcome of expecting an error within a constraint: the timing is
/// reported before the error. `error_matches` is `None` where the operation
/// gave no error.
pub open spec fn failure_outcome(error_matches: Option<bool>, timing: Timing) -> AsyncOutcome {
    if timing != Timing::InTime {
        AsyncOutcome::Mistimed(timing)
    } else {
        match error_matches {
            None => AsyncOutcome::NotAnError,
            Some(false) => AsyncOutcome::WrongError,
            Some(true) => AsyncOutcome::Passed,
        }
    }
}

/// How the standard library's `Debug` renders a duration of so many
/// nanoseconds.
pub uninterp spec fn duration_rendering(nanos: u64) -> Seq<char>;

/// Trusted: `Duration::from_nanos` and the `Debug` rendering of the
/// duration, through `format!`, both of the standard library. The rendering
/// depends on the number alone; the contract gives it the name
/// `duration_rendering` and claims nothing else.
#[verifier::external_body]
pub(crate) fn duration_text(nanos: u64) -> (r: String)
    ensures
        r@ == duration_rendering(nanos),
{
    format!("{:?}", core::time::Duration::from_nanos(nanos))
}

/// A message made of two fixed texts, each followed by a duration.
pub open spec fn timing_message(
    lead: Seq<char>,
    first: u64,
    middle: Seq<char>,
    second: u64,
) -> Seq<char> {
    lead + duration_rendering(first) + middle + duration_rendering(second)
}

/// A message made of two fixed texts, each followed by a duration.
pub fn describe_timing(lead: &str, first: u64, middle: &str, second: u64) -> (r: String)
    ensures
        r@ == timing_message(lead@, first, middle@, second),
{
    let mut r = String::from_str(lead);
    r.append(duration_text(first).as_str());
    r.append(middle);
    r.append(duration_text(second).as_str());
    r
}

/// How an operation that took `elapsed` and ended at `finished_at` stands to
/// a constraint.
pub fn check_timing(constraint: TimeConstraint, elapsed: u64, finished_at: u64) -> (r: Timing)
    ensures
        r == timing_of(constraint, elapsed, finished_at),
{
    match constraint {
        TimeConstraint::Before(limit) => {
            if elapsed >= limit {
                Timing::TooSlow
            } else {
                Timing::InTime
            }
        },
        TimeConstraint::After(minimum) => {
            if elapsed <= minimum {
                Timing::TooFast
            } else {
                Timing::InTime
            }
        },
        TimeConstraint::ByTime(deadline) => {
            if finished_at > deadline {
                Timing::TooLate
            } else {
                Timing::InTime
            }
        },
    }
}

/// The outcome of expecting a value that equals the expected one within a
/// time constraint.
pub fn to_resolve_with_constraint(
    value_matches: bool,
    constraint: TimeConstraint,
    elapsed: u64,
    finished_at: u64,
) -> (r: AsyncOutcome)
    ensures
        r == resolution_outcome(value_matches, timing_of(constraint, elapsed, finished_at)),
{
    if !value_matches {
        return AsyncOutcome::WrongValue;
    }
    match check_timing(constraint, elapsed, finished_at) {
        Timing::InTime => AsyncOutcome::Passed,
        late => AsyncOutcome::Mistimed(late),
    }
}

/// The outcome of expecting an error that equals the expected one within a
/// time constraint. `error_matches` is `None` where the operation gave no
/// error.
pub fn to_fail_with_constraint(
    error_matches: Option<bool>,
    constraint: TimeConstraint,
    elapsed: u64,
    finished_at: u64,
) -> (r: AsyncOutcome)
    ensures
        r == failure_outcome(error_matches, timing_of(constraint, elapsed, finished_at)),
{
    match check_timing(constraint, elapsed, finished_at) {
        Timing::InTime => match error_matches {
            None => AsyncOutcome::NotAnError,
            Some(false) => AsyncOutcome::WrongError,
            Some(true) => AsyncOutcome::Passed,
        },
        late => AsyncOutcome::Mistimed(late),
    }
}

/// How an operation stands to a constraint that may be absent: without a
/// constraint it is in time.
pub open spec fn timing_under(
    constraint: Option<TimeConstraint>,
    elapsed: u64,
    finished_at: u64,
) -> Timing {
    match constraint {
        Some(given) => timing_of(given, elapsed, finished_at),
        None => Timing::InTime,
    }
}

/// The outcome of expecting a value that equals the expected one, within a
/// time constraint where there is one.
pub fn to_resolve_with(
    value_matches: bool,
    constraint: Option<TimeConstraint>,
    elapsed: u64,
    finished_at: u64,
) -> (r: AsyncOutcome)
    ensures
        r == resolution_outcome(value_matches, timing_under(constraint, elapsed, finished_at)),
{
    match constraint {
        Some(given) => to_resolve_with_constraint(value_matches, given, elapsed, finished_at),
        None => {
            if value_matches {
                AsyncOutcome::Passed
            } else {
                AsyncOutcome::WrongValue
            }
        },
    }
}

/// The outcome of expecting an error that equals the expected one, within a
/// time constraint where there is one. `error_matches` is `None` where the
/// operation gave no error.
pub fn to_fail_with(
    error_matches: Option<bool>,
    constraint: Option<TimeConstraint>,
    elapsed: u64,
    finished_at: u64,
) -> (r: AsyncOutcome)
    ensures
        r == failure_outcome(error_matches, timing_under(constraint, elapsed, finished_at)),
{
    match constraint {
        Some(given) => to_fail_with_constraint(error_matches, given, elapsed, finished_at),
        None => match error_matches {
            None => AsyncOutcome::NotAnError,
            Some(false) => AsyncOutcome::WrongError,
            Some(true) => AsyncOutcome::Passed,
        },
    }
}

/// Helper trait for types that can fail (like `Result`).
pub trait AsFailure {
    type Err: core::fmt::Debug;

    /// Returns true if this is a failure (e.g., Err for Result)
    fn is_failure(&self) -> bool;

    /// Returns a reference to the error if this is a failure
    fn get_err(&self) -> Option<&<Self as AsFailure>::Err>;

    /// Compares the error with an expected error
    fn err_equals<F: PartialEq<<Self as AsFailure>::Err>>(&self, expected: &F) -> bool;
}

impl<O, E> AsFailure for Result<O, E> where O: core::fmt::Debug, E: core::fmt::Debug {
    type Err = E;

    fn is_failure(&self) -> (r: bool)
        ensures
            r == (self is Err),
    {
        self.is_err()
    }

    fn get_err(&self) -> (r: Option<&E>)
        ensures
            r == match self {
                Ok(_) => None,
                Err(e) => Some(e),
            },
    {
        match self {
            Ok(_) => None,
            Err(e) => Some(e),
        }
    }

    fn err_equals<F: PartialEq<E>>(&self, expected: &F) -> (r: bool)
        ensures
            self is Ok ==> !r,
            F::obeys_eq_spec() ==> r == match self {
                Ok(_) => false,
                Err(e) => expected.eq_spec(e),
            },
    {
        match self {
            Ok(_) => false,
            Err(e) => *expected == *e,
        }
    }
}

} // verus!
