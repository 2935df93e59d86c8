use rust_lessons::arith::{add, calculate_both, is_even, multiply, read_number, subtract};
use rust_lessons::errors::{add_two_numbers, parse_number_safe};
use rust_lessons::text::longest;

#[test]
fn test_parse_number() {
    assert_eq!(parse_number_safe("42"), Ok(42));
    assert!(parse_number_safe("not a number").is_err());
}

#[test]
fn test_add_two_numbers() {
    assert_eq!(add_two_numbers("10", "20"), Ok(30));
    assert!(add_two_numbers("abc", "20").is_err());
}

#[test]
fn test_longest() {
    assert_eq!(longest("long", "short"), "short");
    assert_eq!(longest("short", "longer"), "longer");
}

#[test]
fn test_add() {
    assert_eq!(add(2, 3), 5);
    assert_eq!(add(0, 0), 0);
    assert_eq!(add(-1, 1), 0);
}

#[test]
fn test_subtract() {
    assert_eq!(subtract(5, 3), 2);
    assert_eq!(subtract(0, 0), 0);
    assert_eq!(subtract(1, 3), -2);
}

#[test]
fn test_multiply() {
    assert_eq!(multiply(2, 3), 6);
    assert_eq!(multiply(0, 100), 0);
    assert_ne!(multiply(2, 3), 5);
}

#[test]
fn test_is_even() {
    assert!(is_even(2));
    assert!(is_even(0));
    assert!(!is_even(1));
    assert!(!is_even(3));
}

#[test]
fn test_with_message() {
    let result = add(2, 3);
    assert_eq!(result, 5, "2 + 3은 5여야 합니다. 실제 값: {}", result);
}

#[test]
fn is_even_on_negatives() {
    assert!(is_even(-4));
    assert!(!is_even(-3));
}

#[test]
fn calculate_both_gives_sum_and_product() {
    assert_eq!(calculate_both(4, 5), (9, 20));
    assert_eq!(calculate_both(-3, 7), (4, -21));
}

#[test]
fn read_number_is_eleven() {
    assert_eq!(read_number(), Ok(11));
}
