//! Matchers for integers.
use crate::assertion::Assertion;
use crate::finality::appended;
use crate::sentence::{plain_sentence, AssertionSentence};
use crate::text::{followed_by, signed_decimal, signed_text};
use vstd::prelude::*;
use vstd::string::*;

verus! {

/// One end of a range of integers.
#[derive(Debug, Clone, Copy, PartialEq, Eq, Structural)]
pub enum RangeEnd {
    /// The range reaches this value and holds it.
    Included(i32),
    /// The range reaches this value and does not hold it.
    Excluded(i32),
    /// The range has no end on this side.
    Unbounded,
}

/// Whether `value` lies between the two ends.
pub open spec fn within(value: int, lower: RangeEnd, upper: RangeEnd) -> bool {
    &&& match lower {
        RangeEnd::Included(start) => start <= value,
        RangeEnd::Excluded(start) => start < value,
        RangeEnd::Unbounded => true,
    }
    &&& match upper {
        RangeEnd::Included(end) => value <= end,
        RangeEnd::Excluded(end) => value < end,
        RangeEnd::Unbounded => true,
    }
}

/// Whether `divisor` divides `value`. Nothing is divisible by zero.
pub open spec fn divides(divisor: int, value: int) -> bool {
    divisor != 0 && value % divisor == 0
}

/// Whether `value` lies between the two ends.
pub fn is_within(value: i32, lower: RangeEnd, upper: RangeEnd) -> (r: bool)
    ensures
        r == within(value as int, lower, upper),
{
    let above = match lower {
        RangeEnd::Included(start) => value >= start,
        RangeEnd::Excluded(start) => value > start,
        RangeEnd::Unbounded => true,
    };
    let below = match upper {
        RangeEnd::Included(end) => value <= end,
        RangeEnd::Excluded(end) => value < end,
        RangeEnd::Unbounded => true,
    };
    above && below
}

/// Whether `divisor` divides `value`. Nothing is divisible by zero.
pub fn is_divisible(value: i32, divisor: i32) -> (r: bool)
    ensures
        r == divides(divisor as int, value as int),
{
    if divisor == 0 {
        false
    } else if value == 0 {
        true
    } else {
        let wide: i64 = value as i64;
        let a: i64 = if wide < 0 {
            -wide
        } else {
            wide
        };
        let by: i64 = divisor as i64;
        let b: i64 = if by < 0 {
            -by
        } else {
            by
        };
        proof {
            lemma_divides_by_magnitude(value as int, divisor as int);
        }
        a % b == 0
    }
}

/// Divisibility depends on magnitudes only.
pub proof fn lemma_divides_by_magnitude(value: int, divisor: int)
    requires
        divisor != 0,
    ensures
        (value % divisor == 0) == ((if value < 0 {
            -value
        } else {
            value
        }) % (if divisor < 0 {
            -divisor
        } else {
            divisor
        }) == 0),
{
    let a = if value < 0 { -value } else { value };
    let b = if divisor < 0 { -divisor } else { divisor };
    if value % divisor == 0 {
        let q = value / divisor;
        vstd::arithmetic::div_mod::lemma_fundamental_div_mod(value, divisor);
        let q2 = if (value < 0) == (divisor < 0) { q } else { -q };
        assert(a == b * q2) by (nonlinear_arith)
            requires
                value == divisor * q,
                a == if value < 0 { -value } else { value },
                b == if divisor < 0 { -divisor } else { divisor },
                q2 == if (value < 0) == (divisor < 0) { q } else { -q },
        ;
        vstd::arithmetic::div_mod::lemma_mod_multiples_basic(q2, b);
        assert(b * q2 == q2 * b) by (nonlinear_arith);
    }
    if a % b == 0 {
        let q = a / b;
        vstd::arithmetic::div_mod::lemma_fundamental_div_mod(a, b);
        let q2 = if (value < 0) == (divisor < 0) { q } else { -q };
        assert(value == q2 * divisor) by (nonlinear_arith)
            requires
                a == b * q,
                a == if value < 0 { -value } else { value },
                b == if divisor < 0 { -divisor } else { divisor },
                q2 == if (value < 0) == (divisor < 0) { q } else { -q },
        ;
        lemma_multiple_has_no_remainder(q2, divisor);
    }
}

/// A multiple of `d` leaves no remainder on division by `d`.
pub proof fn lemma_multiple_has_no_remainder(q: int, d: int)
    requires
        d != 0,
    ensures
        (q * d) % d == 0,
{
    assert((q * d) % d == 0) by (nonlinear_arith)
        requires
            d != 0,
    ;
}

/// Trait for numeric assertions.
pub trait NumericMatchers<T> {
    fn to_be_positive(self) -> Self;

    fn to_be_negative(self) -> Self;

    fn to_be_zero(self) -> Self;

    fn to_be_greater_than(self, expected: T) -> Self;

    fn to_be_greater_than_or_equal(self, expected: T) -> Self;

    fn to_be_less_than(self, expected: T) -> Self;

    fn to_be_less_than_or_equal(self, expected: T) -> Self;

    fn to_be_in_range(self, lower: RangeEnd, upper: RangeEnd) -> Self;

    fn to_be_even(self) -> Self;

    fn to_be_odd(self) -> Self;

    fn to_be_divisible_by(self, divisor: T) -> Self;
}

/// The sentence "be <relation> <number>".
pub fn comparison(relation: &str, expected: i32) -> (r: AssertionSentence)
    ensures
        r@ == plain_sentence("be"@, relation@ + signed_decimal(expected as int)),
{
    let object = followed_by(relation, signed_text(expected as i64).as_str());
    AssertionSentence::new("be", object.as_str())
}

impl NumericMatchers<i32> for Assertion<i32> {
    fn to_be_positive(self) -> (r: Self)
        ensures
            r.value == self.value,
            r@ == appended(self@, plain_sentence("be"@, "positive"@), self.value > 0),
    {
        let value: i32 = self.value;
        let result = value > 0;
        self.add_step(AssertionSentence::new("be", "positive"), result)
    }

    fn to_be_negative(self) -> (r: Self)
        ensures
            r.value == self.value,
            r@ == appended(self@, plain_sentence("be"@, "negative"@), self.value < 0),
    {
        let value: i32 = self.value;
        let result = value < 0;
        self.add_step(AssertionSentence::new("be", "negative"), result)
    }

    fn to_be_zero(self) -> (r: Self)
        ensures
            r.value == self.value,
            r@ == appended(self@, plain_sentence("be"@, "zero"@), self.value == 0),
    {
        let value: i32 = self.value;
        let result = value == 0;
        self.add_step(AssertionSentence::new("be", "zero"), result)
    }

    fn to_be_greater_than(self, expected: i32) -> (r: Self)
        ensures
            r.value == self.value,
            r@ == appended(
                self@,
                plain_sentence("be"@, "greater than "@ + signed_decimal(expected as int)),
                self.value > expected,
            ),
    {
        let value: i32 = self.value;
        let result = value > expected;
        self.add_step(comparison("greater than ", expected), result)
    }

    fn to_be_greater_than_or_equal(self, expected: i32) -> (r: Self)
        ensures
            r.value == self.value,
            r@ == appended(
                self@,
                plain_sentence("be"@, "greater than or equal to "@ + signed_decimal(expected as int)),
                self.value >= expected,
            ),
    {
        let value: i32 = self.value;
        let result = value >= expected;
        self.add_step(comparison("greater than or equal to ", expected), result)
    }

    fn to_be_less_than(self, expected: i32) -> (r: Self)
        ensures
            r.value == self.value,
            r@ == appended(
                self@,
                plain_sentence("be"@, "less than "@ + signed_decimal(expected as int)),
                self.value < expected,
            ),
    {
        let value: i32 = self.value;
        let result = value < expected;
        self.add_step(comparison("less than ", expected), result)
    }

    fn to_be_less_than_or_equal(self, expected: i32) -> (r: Self)
        ensures
            r.value == self.value,
            r@ == appended(
                self@,
                plain_sentence("be"@, "less than or equal to "@ + signed_decimal(expected as int)),
                self.value <= expected,
            ),
    {
        let value: i32 = self.value;
        let result = value <= expected;
        self.add_step(comparison("less than or equal to ", expected), result)
    }

    fn to_be_in_range(self, lower: RangeEnd, upper: RangeEnd) -> (r: Self)
        ensures
            r.value == self.value,
            r@ == appended(
                self@,
                plain_sentence("be"@, "in range "@ + range_text(lower, upper)),
                within(self.value as int, lower, upper),
            ),
    {
        let value: i32 = self.value;
        let result = is_within(value, lower, upper);
        self.add_step(range_sentence(lower, upper), result)
    }

    fn to_be_even(self) -> (r: Self)
        ensures
            r.value == self.value,
            r@ == appended(self@, plain_sentence("be"@, "even"@), self.value % 2 == 0),
    {
        let value: i32 = self.value;
        let result = value % 2 == 0;
        self.add_step(AssertionSentence::new("be", "even"), result)
    }

    fn to_be_odd(self) -> (r: Self)
        ensures
            r.value == self.value,
            r@ == appended(self@, plain_sentence("be"@, "odd"@), self.value % 2 != 0),
    {
        let value: i32 = self.value;
        let result = value % 2 != 0;
        self.add_step(AssertionSentence::new("be", "odd"), result)
    }

    fn to_be_divisible_by(self, divisor: i32) -> (r: Self)
        ensures
            r.value == self.value,
            r@ == appended(
                self@,
                plain_sentence("be"@, "divisible by "@ + signed_decimal(divisor as int)),
                divides(divisor as int, self.value as int),
            ),
    {
        let value: i32 = self.value;
        let result = is_divisible(value, divisor);
        self.add_step(comparison("divisible by ", divisor), result)
    }
}

// Implementation for references to i32
impl NumericMatchers<i32> for Assertion<&i32> {
    fn to_be_positive(self) -> (r: Self)
        ensures
            r.value == self.value,
            r@ == appended(self@, plain_sentence("be"@, "positive"@), *self.value > 0),
    {
        let value: i32 = *self.value;
        let result = value > 0;
        self.add_step(AssertionSentence::new("be", "positive"), result)
    }

    fn to_be_negative(self) -> (r: Self)
        ensures
            r.value == self.value,
            r@ == appended(self@, plain_sentence("be"@, "negative"@), *self.value < 0),
    {
        let value: i32 = *self.value;
        let result = value < 0;
        self.add_step(AssertionSentence::new("be", "negative"), result)
    }

    fn to_be_zero(self) -> (r: Self)
        ensures
            r.value == self.value,
            r@ == appended(self@, plain_sentence("be"@, "zero"@), *self.value == 0),
    {
        let value: i32 = *self.value;
        let result = value == 0;
        self.add_step(AssertionSentence::new("be", "zero"), result)
    }

    fn to_be_greater_than(self, expected: i32) -> (r: Self)
        ensures
            r.value == self.value,
            r@ == appended(
                self@,
                plain_sentence("be"@, "greater than "@ + signed_decimal(expected as int)),
                *self.value > expected,
            ),
    {
        let value: i32 = *self.value;
        let result = value > expected;
        self.add_step(comparison("greater than ", expected), result)
    }

    fn to_be_greater_than_or_equal(self, expected: i32) -> (r: Self)
        ensures
            r.value == self.value,
            r@ == appended(
                self@,
                plain_sentence("be"@, "greater than or equal to "@ + signed_decimal(expected as int)),
                *self.value >= expected,
            ),
    {
        let value: i32 = *self.value;
        let result = value >= expected;
        self.add_step(comparison("greater than or equal to ", expected), result)
    }

    fn to_be_less_than(self, expected: i32) -> (r: Self)
        ensures
            r.value == self.value,
            r@ == appended(
                self@,
                plain_sentence("be"@, "less than "@ + signed_decimal(expected as int)),
                *self.value < expected,
            ),
    {
        let value: i32 = *self.value;
        let result = value < expected;
        self.add_step(comparison("less than ", expected), result)
    }

    fn to_be_less_than_or_equal(self, expected: i32) -> (r: Self)
        ensures
            r.value == self.value,
            r@ == appended(
                self@,
                plain_sentence("be"@, "less than or equal to "@ + signed_decimal(expected as int)),
                *self.value <= expected,
            ),
    {
        let value: i32 = *self.value;
        let result = value <= expected;
        self.add_step(comparison("less than or equal to ", expected), result)
    }

    fn to_be_in_range(self, lower: RangeEnd, upper: RangeEnd) -> (r: Self)
        ensures
            r.value == self.value,
            r@ == appended(
                self@,
                plain_sentence("be"@, "in range "@ + range_text(lower, upper)),
                within(*self.value as int, lower, upper),
            ),
    {
        let value: i32 = *self.value;
        let result = is_within(value, lower, upper);
        self.add_step(range_sentence(lower, upper), result)
    }

    fn to_be_even(self) -> (r: Self)
        ensures
            r.value == self.value,
            r@ == appended(self@, plain_sentence("be"@, "even"@), *self.value % 2 == 0),
    {
        let value: i32 = *self.value;
        let result = value % 2 == 0;
        self.add_step(AssertionSentence::new("be", "even"), result)
    }

    fn to_be_odd(self) -> (r: Self)
        ensures
            r.value == self.value,
            r@ == appended(self@, plain_sentence("be"@, "odd"@), *self.value % 2 != 0),
    {
        let value: i32 = *self.value;
        let result = value % 2 != 0;
        self.add_step(AssertionSentence::new("be", "odd"), result)
    }

    fn to_be_divisible_by(self, divisor: i32) -> (r: Self)
        ensures
            r.value == self.value,
            r@ == appended(
                self@,
                plain_sentence("be"@, "divisible by "@ + signed_decimal(divisor as int)),
                divides(divisor as int, *self.value as int),
            ),
    {
        let value: i32 = *self.value;
        let result = is_divisible(value, divisor);
        self.add_step(comparison("divisible by ", divisor), result)
    }
}

/// The text of the lower end of a range: the number, marked where the range
/// starts above it; nothing for a range without a lower end.
pub open spec fn lower_text(lower: RangeEnd) -> Seq<char> {
    match lower {
        RangeEnd::Included(start) => signed_decimal(start as int),
        RangeEnd::Excluded(start) => signed_decimal(start as int) + "<"@,
        RangeEnd::Unbounded => Seq::empty(),
    }
}

/// The text of the upper end of a range: the number, marked where the range
/// holds it; nothing for a range without an upper end.
pub open spec fn upper_text(upper: RangeEnd) -> Seq<char> {
    match upper {
        RangeEnd::Included(end) => "="@ + signed_decimal(end as int),
        RangeEnd::Excluded(end) => signed_decimal(end as int),
        RangeEnd::Unbounded => Seq::empty(),
    }
}

/// The text of a range, in the notation of range expressions: `0..10`,
/// `0..=10`, `0..`, `..10`.
pub open spec fn range_text(lower: RangeEnd, upper: RangeEnd) -> Seq<char> {
    lower_text(lower) + ".."@ + upper_text(upper)
}

/// The sentence "be in range <range>".
pub fn range_sentence(lower: RangeEnd, upper: RangeEnd) -> (r: AssertionSentence)
    ensures
        r@ == plain_sentence("be"@, "in range "@ + range_text(lower, upper)),
{
    let mut object = String::from_str("in range ");
    match lower {
        RangeEnd::Included(start) => {
            object.append(signed_text(start as i64).as_str());
        },
        RangeEnd::Excluded(start) => {
            object.append(signed_text(start as i64).as_str());
            object.append("<");
        },
        RangeEnd::Unbounded => {},
    }
    object.append("..");
    match upper {
        RangeEnd::Included(end) => {
            object.append("=");
            object.append(signed_text(end as i64).as_str());
        },
        RangeEnd::Excluded(end) => {
            object.append(signed_text(end as i64).as_str());
        },
        RangeEnd::Unbounded => {},
    }
    assert(object@ =~= "in range "@ + range_text(lower, upper));
    AssertionSentence::new("be", object.as_str())
}

} // verus!
