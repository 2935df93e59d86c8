use rust_lessons::errors::{
    add_two_numbers, find_index, parse_number, parse_number_safe, parse_positive_number,
    ParseError,
};
use rust_lessons::library::{Book, Command, Library};
use rust_lessons::text::parse_i32;
use rust_lessons::translation::TranslationWrapper;
use std::collections::HashSet;

fn book(title: &str, author: &str, pages: u32, published: u16) -> Book {
    Book { title: title.to_string(), author: author.to_string(), pages, published }
}

#[test]
fn parse_i32_accepts_signs_and_bounds() {
    assert_eq!(parse_i32("42"), Some(42));
    assert_eq!(parse_i32("+7"), Some(7));
    assert_eq!(parse_i32("-0012"), Some(-12));
    assert_eq!(parse_i32("2147483647"), Some(i32::MAX));
    assert_eq!(parse_i32("-2147483648"), Some(i32::MIN));
}

#[test]
fn parse_i32_rejects_malformed_and_out_of_range() {
    assert_eq!(parse_i32(""), None);
    assert_eq!(parse_i32("-"), None);
    assert_eq!(parse_i32("+"), None);
    assert_eq!(parse_i32(" 1"), None);
    assert_eq!(parse_i32("1_000"), None);
    assert_eq!(parse_i32("2147483648"), None);
    assert_eq!(parse_i32("-2147483649"), None);
    assert_eq!(parse_i32("99999999999999999999"), None);
}

#[test]
fn parse_number_messages() {
    assert_eq!(parse_number("100"), Ok(100));
    assert_eq!(parse_number("abc"), Err("'abc'는 숫자가 아닙니다".to_string()));
    assert_eq!(parse_number_safe("abc"), Err("'abc' is not a valid number".to_string()));
}

#[test]
fn add_two_numbers_names_the_failing_input() {
    assert_eq!(add_two_numbers("abc", "x"), Err("'abc' is not a number".to_string()));
    assert_eq!(add_two_numbers("1", "x"), Err("'x' is not a number".to_string()));
    assert_eq!(add_two_numbers("-5", "3"), Ok(-2));
}

#[test]
fn parse_positive_number_cases() {
    assert_eq!(parse_positive_number("42"), Ok(42));
    assert_eq!(parse_positive_number("0"), Ok(0));
    assert_eq!(parse_positive_number(""), Err(ParseError::EmptyInput));
    assert_eq!(parse_positive_number("abc"), Err(ParseError::InvalidNumber("abc".to_string())));
    assert_eq!(parse_positive_number("-10"), Err(ParseError::OutOfRange));
}

#[test]
fn parse_error_messages() {
    assert_eq!(ParseError::InvalidNumber("abc".to_string()).message(), "잘못된 숫자: abc");
    assert_eq!(ParseError::EmptyInput.message(), "입력이 비어있습니다");
    assert_eq!(ParseError::OutOfRange.message(), "범위를 벗어났습니다");
}

#[test]
fn find_index_first_match() {
    let numbers = [1, 2, 3, 4, 5, 3];
    assert_eq!(find_index(&numbers, 3), Some(2));
    assert_eq!(find_index(&numbers, 5), Some(4));
    assert_eq!(find_index(&numbers, 10), None);
    assert_eq!(find_index(&[], 1), None);
}

#[test]
fn library_totals_and_lookup() {
    let mut library = Library::new("City Library".to_string());
    assert_eq!(library.total_pages(), 0);
    library.add_book(book("The Rust Book", "Steve Klabnik", 560, 2018));
    library.add_book(book("Programming Rust", "Jim Blandy", 622, 2017));
    library.add_book(book("Rust in Action", "Steve Klabnik", 100, 2021));
    assert_eq!(library.name, "City Library");
    assert_eq!(library.total_pages(), 1282);
    let found = library.find_by_author("Steve Klabnik");
    assert_eq!(found.len(), 2);
    assert_eq!(found[0].title, "The Rust Book");
    assert_eq!(found[1].title, "Rust in Action");
    assert!(library.find_by_author("Nobody").is_empty());
}

#[test]
fn command_descriptions() {
    assert_eq!(Command::Quit.describe(), "Quitting...");
    assert_eq!(Command::Move { x: 10, y: -20 }.describe(), "Moving to (10, -20)");
    assert_eq!(Command::Say("Hello!".to_string()).describe(), "Saying: Hello!");
    assert_eq!(Command::ChangeColor(255, 0, 7).describe(), "Changing color to RGB(255, 0, 7)");
}

#[test]
fn translation_wrapper_records() {
    let mut wrapper = TranslationWrapper::new();
    let mut props = HashSet::new();
    props.insert("title".to_string());
    props.insert("description".to_string());
    wrapper.add_constant("CONSTANT_1".to_string(), props);
    assert!(!wrapper.is_file_analyzed("./src/main.ts"));
    assert_eq!(wrapper.get_imported_path("t"), None);
    wrapper.import_constant("t".to_string(), "./translations".to_string());
    wrapper.mark_file_analyzed("./src/main.ts".to_string());
    assert!(wrapper.is_file_analyzed("./src/main.ts"));
    assert!(!wrapper.is_file_analyzed("./src/other.ts"));
    assert_eq!(wrapper.get_imported_path("t"), Some(&"./translations".to_string()));
    wrapper.import_constant("t".to_string(), "./i18n".to_string());
    assert_eq!(wrapper.get_imported_path("t"), Some(&"./i18n".to_string()));
}
