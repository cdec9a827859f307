use fluent_test::assertion::Assertion;
use fluent_test::expectation::Expectation;
use fluent_test::matchers::{EqualityMatchers, NumericMatchers, StringExt};
use fluent_test::modifiers::{
    AfterModifier, AndModifier, BeforeModifier, ByTimeModifier, NotModifier, OrModifier,
};
use fluent_test::reporter::{HostAction, Reporter};
use fluent_test::sentence::AssertionSentence;
use fluent_test::steps::LogicalOp;

const MILLISECOND: u64 = 1_000_000;

/// What the end of a statement does to the assertion it made: the assertion
/// is finalized, and the host raises what the reporter asks it to raise.
fn end_of_scope<T>(mut assertion: Assertion<T>, reporter: &mut Reporter) {
    assert!(reporter.can_count());
    assertion.finalize(false, reporter);
    for action in reporter.take_actions() {
        if let HostAction::Raise(message) = action {
            panic!("{}", message);
        }
    }
}

fn reporter_for_tests() -> Reporter {
    let mut reporter = Reporter::init();
    reporter.disable_deduplication();
    reporter
}

/// A reporter for tests that look at the outcome of a failing chain
/// themselves.
fn lenient_reporter() -> Reporter {
    let mut reporter = reporter_for_tests();
    reporter.set_non_fatal(true);
    reporter
}

#[test]
fn and_test_and_modifier() {
    let mut reporter = reporter_for_tests();

    let value = 42;

    end_of_scope(
        Assertion::new(value, "value").to_be_greater_than(30).and().to_be_less_than(50),
        &mut reporter,
    );
    assert_eq!(reporter.session().passed_count, 1);
    assert_eq!(reporter.session().failed_count, 0);
}

#[test]
fn or_test_or_modifier() {
    let mut reporter = lenient_reporter();

    let value = 42;

    end_of_scope(
        Assertion::new(value, "value").to_be_greater_than(100).or().to_be_less_than(100),
        &mut reporter,
    );
    assert_eq!(reporter.session().passed_count, 1);

    // Create a variable to hold the chain so that it is evaluated by hand.
    let chain = Assertion::new(value, "value")
        .to_be_greater_than(100) // This fails
        .or()
        .to_be_less_than(100); // This passes
    let result = chain.evaluate(&mut reporter);
    assert!(result, "OR chain with one passing condition should evaluate to true");
}

#[test]
fn test_not_modifier() {
    let mut reporter = lenient_reporter();

    let value = 42;

    // These should pass
    end_of_scope(Assertion::new(value, "value").not().to_equal(100), &mut reporter);
    end_of_scope(Assertion::new(value, "value").not().to_be_less_than(10), &mut reporter);

    // Test with chains
    let chain = Assertion::new(value, "value")
        .not()
        .to_be_less_than(30) // "not less than 30" is true for 42
        .and()
        .not()
        .to_be_greater_than(50); // "not greater than 50" is true for 42

    let result = chain.evaluate(&mut reporter);
    assert!(result, "NOT chain with AND should evaluate to true when both conditions are true");
}

#[test]
fn test_and_modifier_failing_manual_check() {
    let mut reporter = lenient_reporter();

    let value = 42;
    // First passes, second fails - manually evaluate to check the result
    let chain = Assertion::new(value, "value").to_be_greater_than(30).and().to_be_less_than(40);
    let result = chain.evaluate(&mut reporter);
    assert!(!result, "AND chain with a failing condition should evaluate to false");
}

#[test]
fn or_test_or_modifier_failing() {
    let mut reporter = lenient_reporter();

    let value = 42;
    // Both fail - should return false, not panic
    let chain = Assertion::new(value, "value").to_be_greater_than(100).or().to_be_less_than(10);
    let result = chain.evaluate(&mut reporter);
    assert!(!result, "OR chain with all failing conditions should evaluate to false");
}

#[test]
fn modifiers_test_test_and_modifier() {
    let mut reporter = lenient_reporter();

    let value = 42;

    // Both assertions pass - this should work and return true
    let chain = Assertion::new(value, "value").to_be_greater_than(30).and().to_be_less_than(50);
    let result = chain.evaluate(&mut reporter);
    assert!(result, "AND chain with all passing conditions should evaluate to true");
}

#[test]
fn test_and_modifier_failing() {
    let mut reporter = lenient_reporter();

    let value = 42;
    // First passes, second fails - should return false, not panic
    let chain = Assertion::new(value, "value").to_be_greater_than(30).and().to_be_less_than(40);
    let result = chain.evaluate(&mut reporter);
    assert!(!result, "AND chain with a failing condition should evaluate to false");
}

#[test]
fn modifiers_test_test_or_modifier() {
    let mut reporter = lenient_reporter();

    let value = 42;

    let chain = Assertion::new(value, "value")
        .to_be_greater_than(100) // This fails
        .or()
        .to_be_less_than(100); // This passes

    let result = chain.evaluate(&mut reporter);
    assert!(result, "OR chain with one passing condition should evaluate to true");
}

#[test]
fn modifiers_test_test_or_modifier_failing() {
    let mut reporter = lenient_reporter();
    let value = 42;
    // Both fail - should return false, not panic
    let chain = Assertion::new(value, "value").to_be_greater_than(100).or().to_be_less_than(10);
    let result = chain.evaluate(&mut reporter);
    assert!(!result, "OR chain with all failing conditions should evaluate to false");
}

#[test]
fn test_not_with_and_or() {
    let mut reporter = lenient_reporter();

    let value = 42;

    // Both conditions pass
    let chain = Assertion::new(value, "value")
        .not()
        .to_be_less_than(30) // "not less than 30" is true for 42
        .and()
        .not()
        .to_be_greater_than(50); // "not greater than 50" is true for 42

    let result = chain.evaluate(&mut reporter);
    assert!(result, "NOT chain with AND should evaluate to true when both conditions are true");
}

#[test]
fn test_basic_assertions() {
    let mut reporter = Reporter::init();

    let value = 42;

    end_of_scope(Assertion::new(value, "value").to_equal(42), &mut reporter);
    end_of_scope(Assertion::new(value, "value").not().to_equal(13), &mut reporter);
    end_of_scope(Assertion::new(value, "value").to_be_greater_than(30), &mut reporter);
    end_of_scope(Assertion::new(value, "value").to_be_less_than(50), &mut reporter);
    assert_eq!(reporter.session().passed_count, 4);
}

#[test]
fn test_with_standard_assertions() {
    // Can mix with standard assertions
    let value = 42;
    assert_eq!(value, 42);

    let mut reporter = Reporter::init();
    end_of_scope(Assertion::new(value, "value").to_be_even(), &mut reporter);
    assert_eq!(reporter.session().passed_count, 1);
}

#[test]
#[should_panic]
fn test_failure_reporting() {
    let mut reporter = Reporter::init();

    let my_special_value = 13;
    end_of_scope(Assertion::new(my_special_value, "my_special_value").to_be_even(), &mut reporter);
}

#[test]
fn test_after_modifier_passing() {
    // Set up an assertion with an elapsed time greater than the constraint
    let assertion = Assertion::with_elapsed(42, "test_value", 150 * MILLISECOND);

    // Apply the after modifier
    let result = assertion.after(100 * MILLISECOND);

    // Should not add any steps since the constraint is satisfied
    assert_eq!(result.steps.len(), 0);
}

#[test]
#[should_panic(expected = "Expected operation to take more than")]
fn test_after_modifier_failing() {
    // Set up an assertion with an elapsed time less than the constraint
    let assertion = Assertion::with_elapsed(42, "test_value", 50 * MILLISECOND);

    // Apply the after modifier - this creates a result with a failing step
    let result = assertion.after(100 * MILLISECOND);

    // This should cause a panic with our error message
    end_of_scope(result, &mut Reporter::init());
}

#[test]
fn test_after_modifier_no_elapsed() {
    // Set up a normal assertion without elapsed time
    let assertion = Assertion::new(42, "test_value");

    // Apply the after modifier
    let result = assertion.after(100 * MILLISECOND);

    // Should not add any steps since there's no elapsed time
    assert_eq!(result.steps.len(), 0);
}

#[test]
fn test_before_modifier_passing() {
    // Set up an assertion with an elapsed time less than the constraint
    let assertion = Assertion::with_elapsed(42, "test_value", 50 * MILLISECOND);

    // Apply the before modifier
    let result = assertion.before(100 * MILLISECOND);

    // Should not add any steps since the constraint is satisfied
    assert_eq!(result.steps.len(), 0);
}

#[test]
#[should_panic(expected = "Expected operation to complete in less than")]
fn test_before_modifier_failing() {
    // Set up an assertion with an elapsed time greater than the constraint
    let assertion = Assertion::with_elapsed(42, "test_value", 150 * MILLISECOND);

    // Apply the before modifier - this creates a result with a failing step
    let result = assertion.before(100 * MILLISECOND);

    // This should cause a panic with our error message
    end_of_scope(result, &mut Reporter::init());
}

#[test]
fn test_before_modifier_no_elapsed() {
    // Set up a normal assertion without elapsed time
    let assertion = Assertion::new(42, "test_value");

    // Apply the before modifier
    let result = assertion.before(100 * MILLISECOND);

    // Should not add any steps since there's no elapsed time
    assert_eq!(result.steps.len(), 0);
}

#[test]
fn test_by_time_modifier_passing() {
    // Set up an assertion with a future deadline
    let now = 5_000 * MILLISECOND;
    let deadline = now + 100 * MILLISECOND;
    let assertion = Assertion::new(42, "test_value");

    // Apply the by_time modifier
    let result = assertion.by_time(deadline, now);

    // Should not add any steps since the deadline hasn't passed
    assert_eq!(result.steps.len(), 0);
}

#[test]
#[should_panic(expected = "Expected operation to complete by")]
fn test_by_time_modifier_failing() {
    // Set up an assertion with a past deadline
    let now = 5_000 * MILLISECOND;
    let deadline = now - 100 * MILLISECOND;
    let assertion = Assertion::new(42, "test_value");

    // Apply the by_time modifier - this creates a result with a failing step
    let result = assertion.by_time(deadline, now);

    // This should cause a panic with our error message
    end_of_scope(result, &mut Reporter::init());
}

#[test]
fn time_constraints_at_their_limits() {
    let on_time = Assertion::with_elapsed(1, "op", 100 * MILLISECOND);
    // Exactly the limit is neither before nor after it.
    let late = on_time.before(100 * MILLISECOND);
    assert_eq!(late.steps.len(), 1);
    assert!(!late.steps[0].passed);
    assert_eq!(
        late.steps[0].sentence.format(),
        "Expected operation to complete in less than 100ms, but it took 100ms"
    );
    assert_eq!(late.steps[0].sentence.verb, "Expected");
    assert_eq!(late.steps[0].sentence.subject, "op");
    assert_eq!(late.elapsed, Some(100 * MILLISECOND));

    let early = Assertion::with_elapsed(1, "op", 100 * MILLISECOND).after(100 * MILLISECOND);
    assert_eq!(early.steps.len(), 1);
    assert_eq!(
        early.steps[0].sentence.format(),
        "Expected operation to take more than 100ms, but it took 100ms"
    );
    assert_eq!(Assertion::with_elapsed(1, "op", 101 * MILLISECOND).after(100 * MILLISECOND).steps.len(), 0);
    assert_eq!(Assertion::with_elapsed(1, "op", 99 * MILLISECOND).before(100 * MILLISECOND).steps.len(), 0);

    // Ending exactly at the deadline is in time.
    assert_eq!(Assertion::new(1, "op").by_time(7, 7).steps.len(), 0);
    let missed = Assertion::new(1, "op").by_time(1_500_000_000, 2_000_000_000);
    assert_eq!(
        missed.steps[0].sentence.format(),
        "Expected operation to complete by 1.5s, but it completed at 2s"
    );
}

#[test]
fn a_custom_message_fails_whatever_the_negation() {
    let plain = Assertion::new(1, "op").with_custom_message("went wrong");
    assert!(!plain.steps[0].passed);
    let negated = Assertion::new(1, "op").not().with_custom_message("went wrong");
    assert!(!negated.steps[0].passed);
    assert!(!negated.steps[0].sentence.negated);
    assert!(!negated.negated);
    assert!(negated.is_final);
}

#[test]
fn negation_reaches_the_next_step_only() {
    let chain = Assertion::new(42, "value")
        .not()
        .to_be_greater_than(50)
        .to_be_greater_than(50);
    assert_eq!(chain.steps.len(), 2);
    // 42 > 50 is false: negated it passes, plain it fails.
    assert!(chain.steps[0].passed);
    assert!(chain.steps[0].sentence.negated);
    assert_eq!(chain.steps[0].sentence.format(), "not be greater than 50");
    assert!(!chain.steps[1].passed);
    assert!(!chain.steps[1].sentence.negated);
    assert_eq!(chain.steps[1].sentence.format(), "be greater than 50");
    assert!(!chain.negated);
}

#[test]
fn not_twice_is_no_negation() {
    let chain = Assertion::new(42, "value").not().not().to_be_positive();
    assert!(chain.steps[0].passed);
    assert!(!chain.steps[0].sentence.negated);
}

#[test]
fn finality_follows_the_calls() {
    let fresh = Assertion::new(42, "value");
    assert!(fresh.is_final);
    assert!(!fresh.in_chain);
    assert!(!fresh.negated);
    assert!(!fresh.reported);
    assert_eq!(fresh.elapsed, None);

    let negated = fresh.not();
    assert!(negated.is_final);
    assert!(negated.negated);

    let stepped = negated.to_be_zero();
    assert!(stepped.is_final);
    assert!(stepped.in_chain);
    assert!(!stepped.negated);

    let joined = stepped.and();
    assert!(!joined.is_final);
    assert!(joined.in_chain);
    assert_eq!(joined.steps[0].logical_op, Some(LogicalOp::And));

    let still_waiting = joined.not();
    assert!(!still_waiting.is_final);

    let complete = still_waiting.to_be_positive();
    assert!(complete.is_final);
    assert_eq!(complete.steps.len(), 2);

    let alternative = complete.or();
    assert!(!alternative.is_final);
    assert_eq!(alternative.steps[1].logical_op, Some(LogicalOp::Or));
    assert_eq!(alternative.steps[0].logical_op, Some(LogicalOp::And));
}

#[test]
fn marking_by_hand() {
    let mut assertion = Assertion::new(1, "one").to_be_positive();
    assertion.mark_as_intermediate();
    assert!(!assertion.is_final);
    assertion.mark_as_final();
    assert!(assertion.is_final);
    assertion.set_last_logic(LogicalOp::Or);
    assert_eq!(assertion.steps[0].logical_op, Some(LogicalOp::Or));
    assert!(assertion.calculate_chain_result());
    assert_eq!(assertion.group_steps_into_segments(), vec![vec![0]]);

    let mut empty = Assertion::new(1, "one");
    empty.set_last_logic(LogicalOp::And);
    assert!(empty.steps.is_empty());
}

#[test]
fn an_intermediate_chain_is_not_reported_at_the_end_of_its_scope() {
    let mut reporter = Reporter::init();
    let mut waiting = Assertion::new(42, "value").to_be_greater_than(100).and();
    waiting.finalize(false, &mut reporter);
    assert!(!waiting.reported);
    assert_eq!(reporter.session().passed_count, 0);
    assert_eq!(reporter.session().failed_count, 0);
    assert!(reporter.take_actions().is_empty());

    // The chain after the next matcher call is.
    let mut complete = waiting.to_be_less_than(50);
    complete.finalize(false, &mut reporter);
    assert!(complete.reported);
    assert_eq!(reporter.session().failed_count, 1);
}

#[test]
fn nothing_is_reported_while_unwinding_or_while_another_evaluation_runs() {
    let mut reporter = Reporter::init();
    let mut failing = Assertion::new(42, "value").to_be_negative();

    failing.finalize(true, &mut reporter);
    assert!(!failing.reported);
    assert_eq!(reporter.session().failed_count, 0);

    assert!(reporter.begin_evaluation());
    assert!(reporter.is_evaluating());
    assert!(!reporter.begin_evaluation());
    failing.finalize(false, &mut reporter);
    assert!(!failing.reported);
    assert_eq!(reporter.session().failed_count, 0);
    assert!(reporter.is_evaluating());

    reporter.end_evaluation();
    failing.finalize(false, &mut reporter);
    assert!(failing.reported);
    assert_eq!(reporter.session().failed_count, 1);
    assert!(!reporter.is_evaluating());

    // An empty chain is never reported.
    let mut empty = Assertion::new(42, "value");
    empty.finalize(false, &mut reporter);
    assert!(!empty.reported);
    assert_eq!(reporter.session().passed_count, 0);
}

#[test]
fn a_chain_is_reported_once() {
    let mut reporter = lenient_reporter();
    let mut chain = Assertion::new(42, "value").to_be_positive().and().to_be_even();

    chain.finalize(false, &mut reporter);
    assert_eq!(reporter.session().passed_count, 1);
    // A second end of scope and an explicit evaluation change nothing.
    chain.finalize(false, &mut reporter);
    assert_eq!(reporter.session().passed_count, 1);
    assert!(chain.evaluate(&mut reporter));
    assert_eq!(reporter.session().passed_count, 1);
    assert_eq!(reporter.session().failed_count, 0);
    // Told to the listeners once and rendered once.
    assert_eq!(reporter.take_actions().len(), 2);

    // The other way round: evaluation reports whatever the finality.
    let intermediate = Assertion::new(42, "value").to_be_negative().or();
    assert!(!intermediate.is_final);
    assert!(!intermediate.evaluate(&mut reporter));
    assert_eq!(reporter.session().failed_count, 1);
}

#[test]
fn an_empty_assertion_evaluates_to_true_and_is_silent() {
    let mut reporter = Reporter::init();
    assert!(Assertion::new(42, "value").evaluate(&mut reporter));
    assert_eq!(reporter.session().passed_count, 0);
    assert_eq!(reporter.session().failed_count, 0);
    assert!(reporter.take_actions().is_empty());
}

#[test]
fn add_step_clones_the_assertion() {
    let original = Assertion::new(vec![1, 2], "list");
    let stepped = original.add_step(AssertionSentence::new("be", "here"), true);
    assert!(original.steps.is_empty());
    assert_eq!(stepped.value, vec![1, 2]);
    assert_eq!(stepped.steps.len(), 1);
    assert_eq!(stepped.steps[0].sentence.subject, "list");
    assert_eq!(stepped.expr_str, "list");
    let result = stepped.to_result(true);
    assert_eq!(result.expr_str, "list");
    assert!(result.passed);
    assert_eq!(result.steps.len(), 1);
}

#[test]
fn expectations_follow_the_same_protocol() {
    let mut reporter = lenient_reporter();

    let fresh = Expectation::new("", "&text");
    assert!(fresh.is_final);
    assert_eq!(fresh.chain.expr_str, "text");
    let stepped = fresh.not().to_be_empty();
    assert!(!stepped.chain.steps[0].passed);
    assert_eq!(stepped.chain.steps[0].sentence.format(), "not be empty");
    assert_eq!(stepped.chain.steps[0].sentence.subject, "&text");
    let mut waiting = stepped.or();
    assert!(!waiting.is_final);
    assert_eq!(waiting.chain.steps[0].logical_op, Some(LogicalOp::Or));
    waiting.finalize(false, &mut reporter);
    assert!(!waiting.reported);
    assert_eq!(reporter.session().failed_count, 0);

    let mut complete = waiting.add_assertion_step(AssertionSentence::new("be", "short"), true);
    assert!(complete.is_final);
    complete.mark_as_intermediate();
    assert!(!complete.is_final);
    complete.mark_as_final();
    complete.finalize(false, &mut reporter);
    assert!(complete.reported);
    assert_eq!(reporter.session().passed_count, 1);
    assert!(complete.evaluate(&mut reporter));
    assert_eq!(reporter.session().passed_count, 1);

    let failing = Expectation::new(String::from("x"), "text").to_be_empty().and();
    assert!(!failing.evaluate(&mut reporter));
    assert_eq!(reporter.session().failed_count, 1);
    assert_eq!(reporter.session().failures[0].expr_str, "text");
}

#[test]
fn explicit_evaluation_reports_a_dangling_operator_too() {
    let mut reporter = Reporter::init();
    let dangling = Assertion::new(42, "value").to_be_positive().and();
    assert!(dangling.evaluate(&mut reporter));
    assert_eq!(reporter.session().passed_count, 1);
}

#[test]
fn a_full_counter_is_in_the_way_only_of_what_it_counts() {
    let mut reporter = lenient_reporter();
    // Nothing is counted for an empty chain, for an intermediate chain at the
    // end of its scope, or for a chain that was reported before.
    assert!(Assertion::new(42, "value").has_room_to_evaluate(&reporter));
    let waiting = Assertion::new(42, "value").to_be_positive().and();
    assert!(waiting.has_room_for_scope_end(false, &reporter));
    assert!(!waiting.fires_at_scope_end(false, false));
    let mut done = Assertion::new(42, "value").to_be_positive();
    assert!(done.fires_at_scope_end(false, false));
    assert!(!done.fires_at_scope_end(true, false));
    assert!(!done.fires_at_scope_end(false, true));
    done.finalize(false, &mut reporter);
    assert!(!done.fires_at_scope_end(false, false));
    assert!(done.has_room_to_evaluate(&reporter));
    assert!(reporter.can_count_as(true));
    assert!(reporter.can_count_as(false));
}
