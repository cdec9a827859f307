use std::collections::HashMap;

use fluent_test::assertion::Assertion;
use fluent_test::matchers::numeric::RangeEnd;
use fluent_test::matchers::{
    BooleanMatchers, CollectionExtensions, CollectionMatchers, EqualityMatchers, HashMapMatchers,
    NumericMatchers, OptionMatchers, ResultMatchers, StringMatchers,
};
use fluent_test::modifiers::NotModifier;
use fluent_test::reporter::{HostAction, Reporter};

/// What the end of a statement does to the assertion it made: the assertion
/// is finalized, and the host raises what the reporter asks it to raise.
fn end_of_scope<T>(mut assertion: Assertion<T>, reporter: &mut Reporter) {
    assert!(reporter.can_count());
    assertion.finalize(false, reporter);
    for action in reporter.take_actions() {
        if let HostAction::Raise(message) = action {
            panic!("{}", message);
        }
    }
}

fn reporter_for_tests() -> Reporter {
    let mut reporter = Reporter::init();
    reporter.disable_deduplication();
    reporter
}

#[test]
fn boolean_test_boolean_true() {
    let mut reporter = reporter_for_tests();

    end_of_scope(Assertion::new(true, "true").to_be_true(), &mut reporter);
    end_of_scope(Assertion::new(false, "false").not().to_be_true(), &mut reporter);
    assert_eq!(reporter.session().passed_count, 2);
    assert_eq!(reporter.session().failed_count, 0);
}

#[test]
fn boolean_test_boolean_false() {
    let mut reporter = reporter_for_tests();

    end_of_scope(Assertion::new(false, "false").to_be_false(), &mut reporter);
    end_of_scope(Assertion::new(true, "true").not().to_be_false(), &mut reporter);
    assert_eq!(reporter.session().passed_count, 2);
    assert_eq!(reporter.session().failed_count, 0);
}

#[test]
fn boolean_matchers_on_references() {
    let mut reporter = reporter_for_tests();
    let yes = true;
    let no = false;

    end_of_scope(Assertion::new(&yes, "&yes").to_be_true(), &mut reporter);
    end_of_scope(Assertion::new(&no, "&no").to_be_false(), &mut reporter);
    assert_eq!(reporter.session().passed_count, 2);
}

#[test]
#[should_panic(expected = "not be true")]
fn boolean_test_not_true_fails() {
    let mut reporter = reporter_for_tests();
    end_of_scope(Assertion::new(true, "true").not().to_be_true(), &mut reporter);
}

#[test]
#[should_panic(expected = "be true")]
fn boolean_test_false_to_be_true_fails() {
    let mut reporter = reporter_for_tests();
    end_of_scope(Assertion::new(false, "false").to_be_true(), &mut reporter);
}

#[test]
fn collection_test_collection_length() {
    let mut reporter = reporter_for_tests();

    let collection = vec![1, 2, 3, 4, 5];
    let slice = collection.as_slice();

    end_of_scope(Assertion::new(slice, "slice").to_have_length(5), &mut reporter);
    end_of_scope(Assertion::new(&collection, "&collection").to_have_length(5), &mut reporter);

    let vec = vec![1, 2, 3, 4, 5];
    end_of_scope(Assertion::new(vec.as_slice(), "vec.as_slice()").to_have_length(5), &mut reporter);
    end_of_scope(
        Assertion::new(vec.as_slice(), "vec.as_slice()").not().to_have_length(3),
        &mut reporter,
    );
    assert_eq!(reporter.session().passed_count, 4);
    assert_eq!(reporter.session().failed_count, 0);
}

#[test]
#[should_panic(expected = "have length 6")]
fn collection_test_wrong_length_fails() {
    let mut reporter = reporter_for_tests();
    let collection = vec![1, 2, 3, 4, 5];
    let slice = collection.as_slice();
    end_of_scope(Assertion::new(slice, "slice").to_have_length(6), &mut reporter);
}

#[test]
fn collection_test_collection_contains() {
    let mut reporter = reporter_for_tests();

    let collection = vec![1, 2, 3, 4, 5];
    let slice = collection.as_slice();

    end_of_scope(Assertion::new(slice, "slice").to_contain(3), &mut reporter);
    end_of_scope(Assertion::new(&collection, "&collection").to_contain(3), &mut reporter);

    let vec = vec![1, 2, 3, 4, 5];
    end_of_scope(Assertion::new(vec.as_slice(), "vec.as_slice()").to_contain(3), &mut reporter);
    end_of_scope(
        Assertion::new(vec.as_slice(), "vec.as_slice()").not().to_contain(10),
        &mut reporter,
    );
    assert_eq!(reporter.session().passed_count, 4);
    assert_eq!(reporter.session().failed_count, 0);
}

#[test]
#[should_panic(expected = "contain 6")]
fn collection_test_missing_value_fails() {
    let mut reporter = reporter_for_tests();
    let collection = vec![1, 2, 3, 4, 5];
    let slice = collection.as_slice();
    end_of_scope(Assertion::new(slice, "slice").to_contain(6), &mut reporter);
}

#[test]
fn collection_test_collection_contains_all() {
    let mut reporter = reporter_for_tests();

    let collection = vec![1, 2, 3, 4, 5];
    let slice = collection.as_slice();

    end_of_scope(Assertion::new(slice, "slice").to_contain_all_of(&[1, 3, 5]), &mut reporter);
    end_of_scope(
        Assertion::new(&collection, "&collection").to_contain_all_of(&[1, 3, 5]),
        &mut reporter,
    );

    let vec = vec![1, 2, 3, 4, 5];
    end_of_scope(
        Assertion::new(vec.as_slice(), "vec.as_slice()").to_contain_all_of(&[1, 3, 5]),
        &mut reporter,
    );
    end_of_scope(
        Assertion::new(vec.as_slice(), "vec.as_slice()").not().to_contain_all_of(&[1, 6, 7]),
        &mut reporter,
    );
    assert_eq!(reporter.session().passed_count, 4);
    assert_eq!(reporter.session().failed_count, 0);
}

#[test]
fn collection_test_collection_equality() {
    let mut reporter = reporter_for_tests();

    let collection = vec![1, 2, 3, 4, 5];
    let slice = collection.as_slice();

    end_of_scope(
        Assertion::new(slice, "slice").to_equal_collection(&[1, 2, 3, 4, 5]),
        &mut reporter,
    );
    end_of_scope(
        Assertion::new(&collection, "&collection").to_equal_collection(&[1, 2, 3, 4, 5]),
        &mut reporter,
    );

    let vec = vec![1, 2, 3, 4, 5];
    end_of_scope(
        Assertion::new(vec.as_slice(), "vec.as_slice()").to_equal_collection(&vec![1, 2, 3, 4, 5]),
        &mut reporter,
    );
    end_of_scope(
        Assertion::new(vec.as_slice(), "vec.as_slice()")
            .not()
            .to_equal_collection(&vec![5, 4, 3, 2, 1]),
        &mut reporter,
    );
    end_of_scope(
        Assertion::new(vec.as_slice(), "vec.as_slice()").not().to_equal_collection(&vec![1, 2, 3]),
        &mut reporter,
    );
    assert_eq!(reporter.session().passed_count, 5);
    assert_eq!(reporter.session().failed_count, 0);
}

#[test]
#[should_panic(expected = "different lengths")]
fn collection_test_shorter_collection_fails() {
    let mut reporter = reporter_for_tests();
    let collection = vec![1, 2, 3, 4, 5];
    let slice = collection.as_slice();
    end_of_scope(Assertion::new(slice, "slice").to_equal_collection(&[1, 2, 3]), &mut reporter);
}

#[test]
fn collection_test_empty_collection() {
    let mut reporter = reporter_for_tests();

    let empty: Vec<i32> = vec![];
    let slice = empty.as_slice();

    end_of_scope(Assertion::new(slice, "slice").to_be_empty(), &mut reporter);
    end_of_scope(Assertion::new(&empty, "&empty").to_be_empty(), &mut reporter);

    let empty_vec: Vec<i32> = vec![];
    let non_empty_vec = vec![1, 2, 3];
    end_of_scope(
        Assertion::new(empty_vec.as_slice(), "empty_vec.as_slice()").to_be_empty(),
        &mut reporter,
    );
    end_of_scope(
        Assertion::new(non_empty_vec.as_slice(), "non_empty_vec.as_slice()")
            .not()
            .to_be_empty(),
        &mut reporter,
    );
    assert_eq!(reporter.session().passed_count, 4);
    assert_eq!(reporter.session().failed_count, 0);
}

#[test]
fn collection_matchers_on_owned_vectors_and_arrays() {
    let mut reporter = reporter_for_tests();
    let array = [1, 2, 3];

    end_of_scope(Assertion::new(vec![1, 2, 3], "vec![1, 2, 3]").to_contain(2), &mut reporter);
    end_of_scope(Assertion::new(&array, "&array").to_have_length(3), &mut reporter);
    end_of_scope(Assertion::new(&array, "&array").to_equal_collection(&[1, 2, 3]), &mut reporter);
    assert_eq!(reporter.session().passed_count, 3);
}

#[test]
fn collection_extensions_give_the_ends() {
    let items = vec![4, 5, 6];
    let nothing: Vec<i32> = Vec::new();
    let slice = items.as_slice();

    assert_eq!(CollectionExtensions::first(&items), Some(&4));
    assert_eq!(CollectionExtensions::last(&items), Some(&6));
    assert_eq!(CollectionExtensions::first(&nothing), None);
    assert_eq!(CollectionExtensions::last(&nothing), None);
    assert_eq!(CollectionExtensions::first(&slice), Some(&4));
    assert_eq!(CollectionExtensions::last(&slice), Some(&6));
}

#[test]
fn equality_test_equality() {
    let mut reporter = reporter_for_tests();

    // Test with integers
    end_of_scope(Assertion::new(42, "42").to_equal(42), &mut reporter);
    end_of_scope(Assertion::new(42, "42").not().to_equal(100), &mut reporter);

    // Test with strings
    end_of_scope(Assertion::new("hello", "\"hello\"").to_equal("hello"), &mut reporter);
    end_of_scope(Assertion::new("hello", "\"hello\"").not().to_equal("world"), &mut reporter);

    // Test with floating point
    end_of_scope(Assertion::new(3.14, "3.14").to_equal(3.14), &mut reporter);
    end_of_scope(Assertion::new(3.14, "3.14").not().to_equal(2.71), &mut reporter);

    // Test with boolean
    end_of_scope(Assertion::new(true, "true").to_equal(true), &mut reporter);
    end_of_scope(Assertion::new(true, "true").not().to_equal(false), &mut reporter);
    assert_eq!(reporter.session().passed_count, 8);
    assert_eq!(reporter.session().failed_count, 0);
}

#[test]
#[should_panic(expected = "be equal to")]
fn equality_test_equality_fails() {
    let mut reporter = reporter_for_tests();
    end_of_scope(Assertion::new(42, "42").to_equal(43), &mut reporter);
}

#[test]
#[should_panic(expected = "not be equal to")]
fn equality_test_equality_not_fails() {
    let mut reporter = reporter_for_tests();
    end_of_scope(Assertion::new(42, "42").not().to_equal(42), &mut reporter);
}

#[test]
fn equality_renders_the_expected_value() {
    let assertion = Assertion::new(42, "answer").to_equal(43);
    assert_eq!(assertion.steps.len(), 1);
    assert_eq!(assertion.steps[0].sentence.subject, "answer");
    assert_eq!(assertion.steps[0].sentence.format(), "be equal to 43");
    assert!(!assertion.steps[0].passed);

    let by_reference = Assertion::new(&42, "&answer").to_equal(42);
    assert!(by_reference.steps[0].passed);
    let against_reference = Assertion::new(42, "answer").to_equal_value(&42);
    assert!(against_reference.steps[0].passed);
}

#[test]
fn hashmap_test_hashmap_to_be_empty() {
    let mut reporter = reporter_for_tests();

    let empty: HashMap<i32, i32> = HashMap::new();
    let not_empty: HashMap<i32, i32> = [(1, 2)].iter().cloned().collect();

    end_of_scope(Assertion::new(&empty, "&empty").to_be_empty(), &mut reporter);
    end_of_scope(Assertion::new(&not_empty, "&not_empty").not().to_be_empty(), &mut reporter);

    let empty_map: HashMap<&str, i32> = HashMap::new();
    let mut non_empty_map = HashMap::new();
    non_empty_map.insert("Alice", 100);
    end_of_scope(Assertion::new(&empty_map, "&empty_map").to_be_empty(), &mut reporter);
    end_of_scope(
        Assertion::new(&non_empty_map, "&non_empty_map").not().to_be_empty(),
        &mut reporter,
    );
    assert_eq!(reporter.session().passed_count, 4);
    assert_eq!(reporter.session().failed_count, 0);
}

#[test]
fn hashmap_test_hashmap_to_have_length() {
    let mut reporter = reporter_for_tests();

    let map: HashMap<i32, i32> = [(1, 2), (3, 4)].iter().cloned().collect();

    end_of_scope(Assertion::new(&map, "&map").to_have_length(2), &mut reporter);
    end_of_scope(Assertion::new(&map, "&map").not().to_have_length(3), &mut reporter);

    let mut names = HashMap::new();
    names.insert("Alice", 100);
    names.insert("Bob", 85);
    end_of_scope(Assertion::new(&names, "&map").to_have_length(2), &mut reporter);
    end_of_scope(Assertion::new(&names, "&map").not().to_have_length(3), &mut reporter);
    assert_eq!(reporter.session().passed_count, 4);
    assert_eq!(reporter.session().failed_count, 0);
}

#[test]
fn hashmap_test_hashmap_to_contain_key() {
    let mut reporter = reporter_for_tests();

    let map: HashMap<i32, i32> = [(1, 2), (3, 4)].iter().cloned().collect();

    end_of_scope(Assertion::new(&map, "&map").to_contain_key(&1), &mut reporter);
    end_of_scope(Assertion::new(&map, "&map").not().to_contain_key(&2), &mut reporter);

    let mut names = HashMap::new();
    names.insert("Alice", 100);
    names.insert("Bob", 85);
    end_of_scope(Assertion::new(&names, "&map").to_contain_key("Alice"), &mut reporter);
    end_of_scope(Assertion::new(&names, "&map").not().to_contain_key("Charlie"), &mut reporter);
    assert_eq!(reporter.session().passed_count, 4);
    assert_eq!(reporter.session().failed_count, 0);
}

#[test]
#[should_panic(expected = "contain key")]
fn hashmap_test_missing_key_fails() {
    let mut reporter = reporter_for_tests();
    let map: HashMap<i32, i32> = [(1, 2)].iter().cloned().collect();
    end_of_scope(Assertion::new(&map, "&map").to_contain_key(&2), &mut reporter);
}

#[test]
fn hashmap_test_hashmap_to_contain_entry() {
    let mut reporter = reporter_for_tests();

    let map: HashMap<i32, i32> = [(1, 2), (3, 4)].iter().cloned().collect();

    end_of_scope(Assertion::new(&map, "&map").to_contain_entry(&1, &2), &mut reporter);
    end_of_scope(Assertion::new(&map, "&map").not().to_contain_entry(&1, &3), &mut reporter);
    end_of_scope(Assertion::new(&map, "&map").not().to_contain_entry(&2, &3), &mut reporter);

    let mut names = HashMap::new();
    names.insert("Alice", 100);
    names.insert("Bob", 85);
    end_of_scope(Assertion::new(&names, "&map").to_contain_entry("Alice", &100), &mut reporter);
    end_of_scope(
        Assertion::new(&names, "&map").not().to_contain_entry("Alice", &50),
        &mut reporter,
    );
    end_of_scope(
        Assertion::new(&names, "&map").not().to_contain_entry("Charlie", &100),
        &mut reporter,
    );
    assert_eq!(reporter.session().passed_count, 6);
    assert_eq!(reporter.session().failed_count, 0);
}

#[test]
fn hashmap_entry_is_rendered_as_a_pair() {
    let map: HashMap<i32, i32> = [(1, 2)].iter().cloned().collect();
    let assertion = Assertion::new(map, "map").to_contain_entry(&1, &3);
    assert_eq!(assertion.steps[0].sentence.format(), "contain entry (1, 3)");
    assert!(!assertion.steps[0].passed);
}

#[test]
fn test_numeric_matchers() {
    let mut reporter = reporter_for_tests();

    // These should pass
    end_of_scope(Assertion::new(5, "5").to_be_positive(), &mut reporter);
    end_of_scope(Assertion::new(-5, "-5").to_be_negative(), &mut reporter);
    end_of_scope(Assertion::new(0, "0").to_be_zero(), &mut reporter);
    end_of_scope(Assertion::new(5, "5").to_be_greater_than(2), &mut reporter);
    end_of_scope(Assertion::new(5, "5").to_be_greater_than_or_equal(5), &mut reporter);
    end_of_scope(Assertion::new(5, "5").to_be_less_than(10), &mut reporter);
    end_of_scope(Assertion::new(5, "5").to_be_less_than_or_equal(5), &mut reporter);
    end_of_scope(Assertion::new(5, "5").to_be_in_range(RangeEnd::Included(0), RangeEnd::Excluded(10)), &mut reporter);
    end_of_scope(Assertion::new(6, "6").to_be_even(), &mut reporter);
    end_of_scope(Assertion::new(7, "7").to_be_odd(), &mut reporter);

    // These with negation should also pass
    end_of_scope(Assertion::new(5, "5").not().to_be_negative(), &mut reporter);
    end_of_scope(Assertion::new(-5, "-5").not().to_be_positive(), &mut reporter);
    end_of_scope(Assertion::new(5, "5").not().to_be_zero(), &mut reporter);
    end_of_scope(Assertion::new(2, "2").not().to_be_greater_than(5), &mut reporter);
    end_of_scope(Assertion::new(4, "4").not().to_be_greater_than_or_equal(5), &mut reporter);
    end_of_scope(Assertion::new(10, "10").not().to_be_less_than(5), &mut reporter);
    end_of_scope(Assertion::new(6, "6").not().to_be_less_than_or_equal(5), &mut reporter);
    end_of_scope(Assertion::new(15, "15").not().to_be_in_range(RangeEnd::Included(0), RangeEnd::Excluded(10)), &mut reporter);
    end_of_scope(Assertion::new(7, "7").not().to_be_even(), &mut reporter);
    end_of_scope(Assertion::new(6, "6").not().to_be_odd(), &mut reporter);
    assert_eq!(reporter.session().passed_count, 20);
    assert_eq!(reporter.session().failed_count, 0);
}

#[test]
#[should_panic(expected = "be greater than")]
fn test_not_greater_fails() {
    let mut reporter = reporter_for_tests();
    end_of_scope(Assertion::new(2, "2").to_be_greater_than(5), &mut reporter);
}

#[test]
#[should_panic(expected = "be in range")]
fn numeric_test_not_in_range_fails() {
    let mut reporter = reporter_for_tests();
    end_of_scope(Assertion::new(15, "15").to_be_in_range(RangeEnd::Included(0), RangeEnd::Excluded(10)), &mut reporter);
}

#[test]
fn test_greater_than() {
    let mut reporter = reporter_for_tests();
    end_of_scope(Assertion::new(42, "42").to_be_greater_than(30), &mut reporter);
    end_of_scope(Assertion::new(42, "42").not().to_be_greater_than(50), &mut reporter);
    assert_eq!(reporter.session().passed_count, 2);
}

#[test]
fn test_less_than() {
    let mut reporter = reporter_for_tests();
    end_of_scope(Assertion::new(30, "30").to_be_less_than(42), &mut reporter);
    end_of_scope(Assertion::new(42, "42").not().to_be_less_than(30), &mut reporter);
    assert_eq!(reporter.session().passed_count, 2);
}

#[test]
fn test_even_odd() {
    let mut reporter = reporter_for_tests();
    // Even tests
    end_of_scope(Assertion::new(42, "42").to_be_even(), &mut reporter);
    end_of_scope(Assertion::new(43, "43").not().to_be_even(), &mut reporter);
    // Odd tests
    end_of_scope(Assertion::new(43, "43").to_be_odd(), &mut reporter);
    end_of_scope(Assertion::new(42, "42").not().to_be_odd(), &mut reporter);
    assert_eq!(reporter.session().passed_count, 4);
}

#[test]
fn test_divisible_by() {
    let mut reporter = reporter_for_tests();
    end_of_scope(Assertion::new(42, "42").to_be_divisible_by(7), &mut reporter);
    end_of_scope(Assertion::new(42, "42").not().to_be_divisible_by(5), &mut reporter);
    assert_eq!(reporter.session().passed_count, 2);
}

#[test]
fn divisibility_at_the_edges() {
    assert!(Assertion::new(-42, "n").to_be_divisible_by(7).steps[0].passed);
    assert!(Assertion::new(42, "n").to_be_divisible_by(-7).steps[0].passed);
    assert!(Assertion::new(0, "n").to_be_divisible_by(5).steps[0].passed);
    assert!(Assertion::new(i32::MIN, "n").to_be_divisible_by(-1).steps[0].passed);
    assert!(!Assertion::new(42, "n").to_be_divisible_by(0).steps[0].passed);
    assert!(!Assertion::new(-7, "n").to_be_divisible_by(2).steps[0].passed);
    assert_eq!(
        Assertion::new(42, "n").to_be_divisible_by(-7).steps[0].sentence.format(),
        "be divisible by -7"
    );
}

#[test]
fn test_positive_negative() {
    let mut reporter = reporter_for_tests();
    // Positive tests
    end_of_scope(Assertion::new(42, "42").to_be_positive(), &mut reporter);
    end_of_scope(Assertion::new(-42, "-42").not().to_be_positive(), &mut reporter);
    // Negative tests
    end_of_scope(Assertion::new(-42, "-42").to_be_negative(), &mut reporter);
    end_of_scope(Assertion::new(42, "42").not().to_be_negative(), &mut reporter);
    assert_eq!(reporter.session().passed_count, 4);
}

#[test]
fn test_in_range() {
    let mut reporter = reporter_for_tests();
    // Test different range types
    end_of_scope(Assertion::new(42, "42").to_be_in_range(RangeEnd::Included(40), RangeEnd::Included(50)), &mut reporter); // Inclusive range
    end_of_scope(Assertion::new(42, "42").to_be_in_range(RangeEnd::Included(40), RangeEnd::Excluded(51)), &mut reporter); // Exclusive range
    end_of_scope(Assertion::new(42, "42").to_be_in_range(RangeEnd::Included(40), RangeEnd::Unbounded), &mut reporter); // Open-ended range
    end_of_scope(Assertion::new(42, "42").to_be_in_range(RangeEnd::Unbounded, RangeEnd::Excluded(51)), &mut reporter); // From zero range

    // Test negations
    end_of_scope(Assertion::new(30, "30").not().to_be_in_range(RangeEnd::Included(40), RangeEnd::Excluded(50)), &mut reporter);
    assert_eq!(reporter.session().passed_count, 5);
    assert_eq!(reporter.session().failed_count, 0);
}

#[test]
fn range_ends_are_honoured() {
    assert!(!Assertion::new(50, "n").to_be_in_range(RangeEnd::Included(40), RangeEnd::Excluded(50)).steps[0].passed);
    assert!(Assertion::new(50, "n").to_be_in_range(RangeEnd::Included(40), RangeEnd::Included(50)).steps[0].passed);
    assert!(Assertion::new(40, "n").to_be_in_range(RangeEnd::Included(40), RangeEnd::Excluded(50)).steps[0].passed);
    assert!(!Assertion::new(39, "n").to_be_in_range(RangeEnd::Included(40), RangeEnd::Unbounded).steps[0].passed);
    assert!(!Assertion::new(51, "n").to_be_in_range(RangeEnd::Unbounded, RangeEnd::Excluded(51)).steps[0].passed);
    let render = |lower, upper| {
        Assertion::new(5, "n").to_be_in_range(lower, upper).steps[0].sentence.format()
    };
    assert_eq!(render(RangeEnd::Included(0), RangeEnd::Excluded(10)), "be in range 0..10");
    assert_eq!(render(RangeEnd::Included(-3), RangeEnd::Included(10)), "be in range -3..=10");
    assert_eq!(render(RangeEnd::Included(40), RangeEnd::Unbounded), "be in range 40..");
    assert_eq!(render(RangeEnd::Unbounded, RangeEnd::Excluded(51)), "be in range ..51");
    assert_eq!(render(RangeEnd::Unbounded, RangeEnd::Unbounded), "be in range ..");
    assert_eq!(render(RangeEnd::Excluded(1), RangeEnd::Included(2)), "be in range 1<..=2");
    assert!(!Assertion::new(1, "n").to_be_in_range(RangeEnd::Excluded(1), RangeEnd::Unbounded).steps[0].passed);
    assert!(Assertion::new(2, "n").to_be_in_range(RangeEnd::Excluded(1), RangeEnd::Unbounded).steps[0].passed);
    assert!(Assertion::new(&7, "n").to_be_in_range(RangeEnd::Unbounded, RangeEnd::Unbounded).steps[0].passed);
}

#[test]
fn numeric_sentences_render_the_number() {
    assert_eq!(
        Assertion::new(5, "n").to_be_greater_than(-12).steps[0].sentence.format(),
        "be greater than -12"
    );
    assert_eq!(
        Assertion::new(5, "n").to_be_less_than_or_equal(i32::MIN).steps[0].sentence.format(),
        "be less than or equal to -2147483648"
    );
    assert_eq!(
        Assertion::new(&5, "n").to_be_greater_than_or_equal(2147483647).steps[0].sentence.format(),
        "be greater than or equal to 2147483647"
    );
    assert_eq!(Assertion::new(&5, "n").to_be_less_than(0).steps[0].sentence.format(), "be less than 0");
}

#[test]
fn option_test_option_to_be_some() {
    let mut reporter = reporter_for_tests();

    let some_value: Option<i32> = Some(42);
    let none_value: Option<i32> = None;

    end_of_scope(Assertion::new(some_value.clone(), "some_value.clone()").to_be_some(), &mut reporter);
    end_of_scope(Assertion::new(none_value.clone(), "none_value.clone()").to_be_none(), &mut reporter);
    end_of_scope(
        Assertion::new(none_value.clone(), "none_value.clone()").not().to_be_some(),
        &mut reporter,
    );
    end_of_scope(
        Assertion::new(some_value.clone(), "some_value.clone()").not().to_be_none(),
        &mut reporter,
    );

    end_of_scope(Assertion::new(&some_value, "&some_value").to_be_some(), &mut reporter);
    end_of_scope(Assertion::new(&none_value, "&none_value").not().to_be_some(), &mut reporter);
    assert_eq!(reporter.session().passed_count, 6);
    assert_eq!(reporter.session().failed_count, 0);
}

#[test]
fn option_test_option_to_be_none() {
    let mut reporter = reporter_for_tests();

    let some_value: Option<i32> = Some(42);
    let none_value: Option<i32> = None;

    end_of_scope(Assertion::new(&none_value, "&none_value").to_be_none(), &mut reporter);
    end_of_scope(Assertion::new(&some_value, "&some_value").not().to_be_none(), &mut reporter);
    assert_eq!(reporter.session().passed_count, 2);
    assert_eq!(reporter.session().failed_count, 0);
}

#[test]
fn test_option_to_contain() {
    let mut reporter = reporter_for_tests();

    let value: Option<i32> = Some(42);

    end_of_scope(Assertion::new(value.clone(), "value.clone()").to_contain(&42), &mut reporter);
    end_of_scope(Assertion::new(value.clone(), "value.clone()").not().to_contain(&43), &mut reporter);

    let none_value: Option<i32> = None;
    end_of_scope(Assertion::new(none_value, "none_value").not().to_contain(&42), &mut reporter);
    assert_eq!(reporter.session().passed_count, 3);
    assert_eq!(reporter.session().failed_count, 0);
}

#[test]
#[should_panic(expected = "contain 43")]
fn option_test_missing_value_fails() {
    let mut reporter = reporter_for_tests();
    let value: Option<i32> = Some(42);
    end_of_scope(Assertion::new(value, "value").to_contain(&43), &mut reporter);
}

#[test]
fn option_test_option_to_contain_value() {
    let mut reporter = reporter_for_tests();

    let some_value: Option<i32> = Some(42);
    let other_value: Option<i32> = Some(100);
    let none_value: Option<i32> = None;

    end_of_scope(Assertion::new(&some_value, "&some_value").to_contain_value(42), &mut reporter);
    end_of_scope(
        Assertion::new(&other_value, "&other_value").not().to_contain_value(42),
        &mut reporter,
    );
    end_of_scope(
        Assertion::new(&none_value, "&none_value").not().to_contain_value(42),
        &mut reporter,
    );
    assert_eq!(reporter.session().passed_count, 3);
    assert_eq!(reporter.session().failed_count, 0);
}

#[test]
fn result_test_result_to_be_ok() {
    let mut reporter = reporter_for_tests();

    let ok_value: Result<i32, &str> = Ok(42);
    let err_value: Result<i32, &str> = Err("error");

    end_of_scope(Assertion::new(ok_value, "ok_value").to_be_ok(), &mut reporter);
    end_of_scope(Assertion::new(err_value, "err_value").to_be_err(), &mut reporter);
    end_of_scope(Assertion::new(err_value, "err_value").not().to_be_ok(), &mut reporter);
    end_of_scope(Assertion::new(ok_value, "ok_value").not().to_be_err(), &mut reporter);

    let ok_result: Result<i32, &str> = Ok(42);
    let err_result: Result<i32, &str> = Err("error");
    end_of_scope(Assertion::new(&ok_result, "&ok_result").to_be_ok(), &mut reporter);
    end_of_scope(Assertion::new(&err_result, "&err_result").not().to_be_ok(), &mut reporter);
    assert_eq!(reporter.session().passed_count, 6);
    assert_eq!(reporter.session().failed_count, 0);
}

#[test]
fn result_test_result_to_be_err() {
    let mut reporter = reporter_for_tests();

    let ok_result: Result<i32, &str> = Ok(42);
    let err_result: Result<i32, &str> = Err("error");

    end_of_scope(Assertion::new(&err_result, "&err_result").to_be_err(), &mut reporter);
    end_of_scope(Assertion::new(&ok_result, "&ok_result").not().to_be_err(), &mut reporter);
    assert_eq!(reporter.session().passed_count, 2);
    assert_eq!(reporter.session().failed_count, 0);
}

#[test]
fn test_result_contain_values() {
    let mut reporter = reporter_for_tests();

    let ok_value: Result<i32, &str> = Ok(42);
    let err_value: Result<i32, &str> = Err("error");

    end_of_scope(Assertion::new(ok_value, "ok_value").to_contain_ok(&42), &mut reporter);
    end_of_scope(Assertion::new(ok_value, "ok_value").not().to_contain_ok(&43), &mut reporter);
    end_of_scope(Assertion::new(err_value, "err_value").to_contain_err(&"error"), &mut reporter);
    end_of_scope(
        Assertion::new(err_value, "err_value").not().to_contain_err(&"different"),
        &mut reporter,
    );
    assert_eq!(reporter.session().passed_count, 4);
    assert_eq!(reporter.session().failed_count, 0);
}

#[test]
fn result_test_result_to_contain_ok() {
    let mut reporter = reporter_for_tests();

    let ok_result: Result<i32, &str> = Ok(42);
    let different_ok: Result<i32, &str> = Ok(100);
    let err_result: Result<i32, &str> = Err("error");

    end_of_scope(Assertion::new(&ok_result, "&ok_result").to_contain_ok(&42), &mut reporter);
    end_of_scope(
        Assertion::new(&different_ok, "&different_ok").not().to_contain_ok(&42),
        &mut reporter,
    );
    end_of_scope(Assertion::new(&err_result, "&err_result").not().to_contain_ok(&42), &mut reporter);
    assert_eq!(reporter.session().passed_count, 3);
    assert_eq!(reporter.session().failed_count, 0);
}

#[test]
fn result_test_result_to_contain_err() {
    let mut reporter = reporter_for_tests();

    let err_result: Result<i32, &str> = Err("network error");
    let different_err: Result<i32, &str> = Err("authentication error");
    let ok_result: Result<i32, &str> = Ok(42);

    end_of_scope(
        Assertion::new(&err_result, "&err_result").to_contain_err(&"network error"),
        &mut reporter,
    );
    end_of_scope(
        Assertion::new(&different_err, "&different_err").not().to_contain_err(&"network error"),
        &mut reporter,
    );
    end_of_scope(
        Assertion::new(&ok_result, "&ok_result").not().to_contain_err(&"network error"),
        &mut reporter,
    );
    assert_eq!(reporter.session().passed_count, 3);
    assert_eq!(reporter.session().failed_count, 0);
}

#[test]
#[should_panic(expected = "contain ok value 43")]
fn test_ok_wrong_value_fails() {
    let mut reporter = reporter_for_tests();
    let value: Result<i32, &str> = Ok(42);
    end_of_scope(Assertion::new(value, "value").to_contain_ok(&43), &mut reporter);
}

#[test]
fn string_test_string_to_be_empty() {
    let mut reporter = reporter_for_tests();

    end_of_scope(Assertion::new("", "\"\"").to_be_empty(), &mut reporter);
    end_of_scope(Assertion::new("hello", "\"hello\"").not().to_be_empty(), &mut reporter);
    end_of_scope(Assertion::new(String::new(), "String::new()").to_be_empty(), &mut reporter);
    end_of_scope(
        Assertion::new(String::from("hello"), "String::from(\"hello\")").not().to_be_empty(),
        &mut reporter,
    );

    let empty_string = "";
    let non_empty_string = "hello";
    end_of_scope(Assertion::new(empty_string, "empty_string").to_be_empty(), &mut reporter);
    end_of_scope(
        Assertion::new(non_empty_string, "non_empty_string").not().to_be_empty(),
        &mut reporter,
    );
    assert_eq!(reporter.session().passed_count, 6);
    assert_eq!(reporter.session().failed_count, 0);
}

#[test]
fn test_string_to_have_length() {
    let mut reporter = reporter_for_tests();

    end_of_scope(Assertion::new("hello", "\"hello\"").to_have_length(5), &mut reporter);
    end_of_scope(Assertion::new("hello", "\"hello\"").not().to_have_length(4), &mut reporter);
    end_of_scope(
        Assertion::new(String::from("hello"), "String::from(\"hello\")").to_have_length(5),
        &mut reporter,
    );
    assert_eq!(reporter.session().passed_count, 3);
    assert_eq!(reporter.session().failed_count, 0);
}

#[test]
fn string_length_counts_bytes() {
    // Two characters, three bytes of UTF-8.
    assert!(Assertion::new("aé", "text").to_have_length(3).steps[0].passed);
    assert!(!Assertion::new("aé", "text").to_have_length(2).steps[0].passed);
    assert_eq!(
        Assertion::new("aé", "text").to_have_length(3).steps[0].sentence.format(),
        "have length 3"
    );
}

#[test]
fn test_string_to_contain() {
    let mut reporter = reporter_for_tests();

    end_of_scope(Assertion::new("hello world", "\"hello world\"").to_contain("hello"), &mut reporter);
    end_of_scope(
        Assertion::new("hello world", "\"hello world\"").not().to_contain("goodbye"),
        &mut reporter,
    );
    end_of_scope(
        Assertion::new(String::from("hello world"), "String::from(\"hello world\")")
            .to_contain("world"),
        &mut reporter,
    );
    assert_eq!(reporter.session().passed_count, 3);
    assert_eq!(reporter.session().failed_count, 0);
}

#[test]
#[should_panic(expected = "not contain")]
fn test_not_contains_when_it_does_fails() {
    let mut reporter = reporter_for_tests();
    end_of_scope(
        Assertion::new("hello world", "\"hello world\"").not().to_contain("hello"),
        &mut reporter,
    );
}

#[test]
fn test_string_to_start_with() {
    let mut reporter = reporter_for_tests();

    end_of_scope(
        Assertion::new("hello world", "\"hello world\"").to_start_with("hello"),
        &mut reporter,
    );
    end_of_scope(
        Assertion::new("hello world", "\"hello world\"").not().to_start_with("world"),
        &mut reporter,
    );
    end_of_scope(
        Assertion::new(String::from("hello world"), "String::from(\"hello world\")")
            .to_start_with("hello"),
        &mut reporter,
    );
    assert_eq!(reporter.session().passed_count, 3);
    assert_eq!(reporter.session().failed_count, 0);
}

#[test]
fn test_string_to_end_with() {
    let mut reporter = reporter_for_tests();

    end_of_scope(Assertion::new("hello world", "\"hello world\"").to_end_with("world"), &mut reporter);
    end_of_scope(
        Assertion::new("hello world", "\"hello world\"").not().to_end_with("hello"),
        &mut reporter,
    );
    end_of_scope(
        Assertion::new(String::from("hello world"), "String::from(\"hello world\")")
            .to_end_with("world"),
        &mut reporter,
    );
    assert_eq!(reporter.session().passed_count, 3);
    assert_eq!(reporter.session().failed_count, 0);
}

#[test]
fn test_string_to_match() {
    let mut reporter = reporter_for_tests();

    end_of_scope(Assertion::new("hello world", "\"hello world\"").to_match("world"), &mut reporter);
    end_of_scope(
        Assertion::new("hello world", "\"hello world\"").not().to_match("goodbye"),
        &mut reporter,
    );
    end_of_scope(
        Assertion::new(String::from("hello world"), "String::from(\"hello world\")")
            .to_match("hello"),
        &mut reporter,
    );
    assert_eq!(reporter.session().passed_count, 3);
    assert_eq!(reporter.session().failed_count, 0);
}

#[test]
fn test_string_contains() {
    let mut reporter = reporter_for_tests();
    let text = "Hello, world!";

    end_of_scope(Assertion::new(text, "text").to_contain("world"), &mut reporter);
    end_of_scope(Assertion::new(text, "text").not().to_contain("universe"), &mut reporter);
    assert_eq!(reporter.session().passed_count, 2);
}

#[test]
fn test_string_starts_with() {
    let mut reporter = reporter_for_tests();
    let text = "Hello, world!";

    end_of_scope(Assertion::new(text, "text").to_start_with("Hello"), &mut reporter);
    end_of_scope(Assertion::new(text, "text").not().to_start_with("world"), &mut reporter);
    assert_eq!(reporter.session().passed_count, 2);
}

#[test]
fn test_string_ends_with() {
    let mut reporter = reporter_for_tests();
    let text = "Hello, world!";

    end_of_scope(Assertion::new(text, "text").to_end_with("world!"), &mut reporter);
    end_of_scope(Assertion::new(text, "text").not().to_end_with("Hello"), &mut reporter);
    assert_eq!(reporter.session().passed_count, 2);
}

#[test]
fn test_string_match_regex() {
    let mut reporter = reporter_for_tests();
    let text = "Hello, world!";

    end_of_scope(Assertion::new(text, "text").to_match_regex(r"Hello,\s\w+!"), &mut reporter);
    end_of_scope(
        Assertion::new(text, "text").not().to_match_regex(r"Goodbye,\s\w+!"),
        &mut reporter,
    );
    assert_eq!(reporter.session().passed_count, 2);
    assert_eq!(reporter.session().failed_count, 0);
}

#[test]
fn regex_is_more_than_a_substring_search() {
    // The pattern does not occur in the text as it stands, and the text is
    // not its own pattern's only match.
    let matched = Assertion::new("abc123", "text").to_match_regex(r"^[a-c]+\d{3}$");
    assert!(matched.steps[0].passed);
    assert_eq!(matched.steps[0].sentence.format(), "match pattern \"^[a-c]+\\d{3}$\"");
    let unmatched = Assertion::new("abc12", "text").to_match_regex(r"^[a-c]+\d{3}$");
    assert!(!unmatched.steps[0].passed);
    // The plain matcher looks for the pattern as a substring.
    assert!(!Assertion::new("abc123", "text").to_match(r"\d{3}").steps[0].passed);
}

#[test]
fn invalid_regex_is_a_failing_step() {
    let plain = Assertion::new("Hello", "text").to_match_regex("foo(bar");
    assert!(!plain.steps[0].passed);
    assert_eq!(plain.steps[0].sentence.format(), "match regex \"foo(bar\" (INVALID REGEX)");
    // Never a silent pass, negated or not.
    let negated = Assertion::new("Hello", "text").not().to_match_regex("foo(bar");
    assert!(!negated.steps[0].passed);
    assert_eq!(
        fluent_test::matchers::string::match_pattern("foo(bar", "Hello"),
        None
    );
    assert_eq!(fluent_test::matchers::string::match_pattern("l+", "Hello"), Some(true));
    assert_eq!(fluent_test::matchers::string::match_pattern("z+", "Hello"), Some(false));
}

#[test]
fn test_string_length() {
    let mut reporter = reporter_for_tests();
    let text = "Hello";

    end_of_scope(Assertion::new(text, "text").to_have_length(5), &mut reporter);
    end_of_scope(Assertion::new(text, "text").not().to_have_length(10), &mut reporter);
    end_of_scope(Assertion::new(text, "text").to_have_length_greater_than(3), &mut reporter);
    end_of_scope(Assertion::new(text, "text").to_have_length_less_than(10), &mut reporter);
    assert_eq!(reporter.session().passed_count, 4);
    assert_eq!(reporter.session().failed_count, 0);
}

#[test]
fn string_sentences_quote_their_argument() {
    assert_eq!(
        Assertion::new("hello", "text").to_contain("ell").steps[0].sentence.format(),
        "contain \"ell\""
    );
    assert_eq!(
        Assertion::new("hello", "text").to_start_with("he").steps[0].sentence.format(),
        "start with \"he\""
    );
    assert_eq!(
        Assertion::new("hello", "text").not().to_end_with("lo").steps[0].sentence.format(),
        "not end with \"lo\""
    );
    assert_eq!(
        Assertion::new("hello", "text").to_match("l").steps[0].sentence.format(),
        "match pattern \"l\""
    );
    assert_eq!(
        Assertion::new("hello", "text").to_have_length_greater_than(3).steps[0].sentence.format(),
        "have length greater than 3"
    );
}
