use squid::examples::{apply_operation, describe_number, divide, filter_even_numbers, longest, ExampleError};

#[test]
fn test_divide() {
    assert_eq!(divide(10, 2).unwrap(), 5);
    assert!(divide(10, 0).is_err());
}

#[test]
fn test_filter_even() {
    let numbers = vec![1, 2, 3, 4, 5, 6];
    let even = filter_even_numbers(numbers);
    assert_eq!(even, vec![2, 4, 6]);
}

#[test]
fn test_describe_number() {
    assert_eq!(describe_number(0), "zero");
    assert_eq!(describe_number(5), "single digit");
    assert_eq!(describe_number(42), "two digits");
}

#[test]
fn divide_rounds_toward_zero() {
    assert_eq!(divide(-7, 2), Ok(-3));
    assert_eq!(divide(7, -2), Ok(-3));
    assert_eq!(divide(-7, -2), Ok(3));
    assert_eq!(divide(1, 0), Err(ExampleError::DivisionByZero));
}

#[test]
fn longest_prefers_second_on_tie() {
    assert_eq!(longest("abc", "xy"), "abc");
    assert_eq!(longest("ab", "xy"), "xy");
}

#[test]
fn apply_operation_calls_the_closure() {
    assert_eq!(apply_operation(3, 4, |a, b| a * b), 12);
}

#[test]
fn division_by_zero_is_reported() {
    assert_eq!(divide(7, 0).unwrap_err().message(), "Division by zero");
    assert_eq!(divide(-7, 2), Ok(-3));
}
