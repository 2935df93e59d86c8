use rust_lessons::cli::{command_report, Commands};
use rust_lessons::files::{label_processed, process_code};
use rust_lessons::processors::{
    get_biggest, largest, process_ast, AstProcessor, Container, LowercaseProcessor, Processor,
    TranslationProcessor, UppercaseProcessor, ValidationProcessor, has_suffix,
};
use rust_lessons::sequences::{
    chained, doubled, evens, product_all, sort_by_age, squared, sum_all, Person,
};
use rust_lessons::text::{
    calculate_length, is_all_caps, is_valid_constant_name, modify_string, quoted_with,
};
use rust_lessons::words::word_frequencies;

#[test]
fn biggest_and_largest() {
    assert_eq!(get_biggest(42, 24), 42);
    assert_eq!(get_biggest(-1, 3), 3);
    assert_eq!(get_biggest('a', 'z'), 'z');
    assert_eq!(largest(&[34, 50, 25, 100, 65]), 100);
    assert_eq!(largest(&[7]), 7);
}

#[test]
fn case_processors() {
    assert_eq!(UppercaseProcessor.process("Hello World"), "HELLO WORLD");
    assert_eq!(LowercaseProcessor.process("Hello World"), "hello world");
    assert_eq!(process_code("hello rust"), "HELLO RUST");
}

#[test]
fn ast_processors() {
    let translation = TranslationProcessor { prefix: "translated".to_string() };
    assert_eq!(process_ast(&translation, "module.ts"), Ok("translated: module.ts".to_string()));
    assert_eq!(ValidationProcessor.process("test.ts"), Ok("유효한 모듈: test.ts".to_string()));
    assert_eq!(
        ValidationProcessor.process("test.js"),
        Err("유효하지 않은 파일 확장자".to_string())
    );
    assert!(has_suffix("a.ts", ".ts"));
    assert!(!has_suffix("ts", ".ts"));
    assert!(has_suffix("abc", ""));
}

#[test]
fn vec_as_container() {
    let mut v: Vec<i32> = Vec::new();
    Container::add(&mut v, 10);
    Container::add(&mut v, 20);
    Container::add(&mut v, 30);
    assert_eq!(Container::len(&v), 3);
    assert_eq!(Container::get(&v, 1), Some(&20));
    assert_eq!(Container::get(&v, 3), None);
}

#[test]
fn sequence_folds() {
    let v = vec![1, 2, 3, 4, 5];
    assert_eq!(sum_all(&v), 15);
    assert_eq!(product_all(&v), 120);
    assert_eq!(sum_all(&vec![]), 0);
    assert_eq!(product_all(&vec![]), 1);
    assert_eq!(doubled(&v), vec![2, 4, 6, 8, 10]);
    assert_eq!(squared(&v), vec![1, 4, 9, 16, 25]);
    assert_eq!(evens(&v), vec![2, 4]);
    assert_eq!(evens(&vec![-2, -1, 0]), vec![-2, 0]);
    assert_eq!(chained(&vec![1, 2, 3], &vec![4, 5, 6]), vec![1, 2, 3, 4, 5, 6]);
}

#[test]
fn people_sorted_by_age() {
    let people = vec![
        Person { name: "Alice".to_string(), age: 30 },
        Person { name: "Bob".to_string(), age: 25 },
        Person { name: "Charlie".to_string(), age: 35 },
    ];
    let sorted = sort_by_age(people);
    let names: Vec<&str> = sorted.iter().map(|p| p.name.as_str()).collect();
    assert_eq!(names, vec!["Bob", "Alice", "Charlie"]);
}

#[test]
fn cli_reports() {
    let process = Some(Commands::Process { pattern: Some("src/**/*.ts".to_string()) });
    assert_eq!(
        command_report(&process, true),
        vec!["Processing files...", "Pattern: src/**/*.ts", "(Dry run mode)"]
    );
    let bare = Some(Commands::Process { pattern: None });
    assert_eq!(command_report(&bare, false), vec!["Processing files..."]);
    let analyze = Some(Commands::Analyze { file: "a.ts".to_string() });
    assert_eq!(command_report(&analyze, true), vec!["Analyzing file: a.ts"]);
    assert_eq!(command_report(&None, false), vec!["No command specified"]);
}

#[test]
fn processed_file_labels() {
    let paths = vec!["file1.txt".to_string(), "file2.txt".to_string(), "file3.txt".to_string()];
    assert_eq!(
        label_processed(&paths, &vec![true, false, true]),
        vec!["처리됨: file1.txt", "처리됨: file3.txt"]
    );
}

#[test]
fn text_helpers() {
    assert!(is_all_caps("CONSTANT"));
    assert!(is_all_caps("CONSTANT_1"));
    assert!(!is_all_caps("constant"));
    assert!(is_all_caps(""));
    assert_eq!(calculate_length(&"hello".to_string()), 5);
    assert_eq!(calculate_length(&"한글".to_string()), 6);
    let mut s = "world".to_string();
    modify_string(&mut s);
    assert_eq!(s, "world modified");
    assert_eq!(quoted_with("x", " tail"), "'x' tail");
}

#[test]
fn word_frequencies_counts_each_word() {
    let counts = word_frequencies("hello world hello rust world");
    assert_eq!(counts.count("hello"), 2);
    assert_eq!(counts.count("world"), 2);
    assert_eq!(counts.count("rust"), 1);
    assert_eq!(counts.count("python"), 0);
    assert_eq!(counts.distinct_words(), vec!["hello", "world", "rust"]);
}

#[test]
fn word_frequencies_splits_on_any_white_space() {
    let counts = word_frequencies("  a\tb\n\na\u{3000}c  ");
    assert_eq!(counts.distinct_words(), vec!["a", "b", "c"]);
    assert_eq!(counts.count("a"), 2);
    assert_eq!(counts.count(""), 0);
    assert!(word_frequencies("").distinct_words().is_empty());
    assert!(word_frequencies(" \t ").distinct_words().is_empty());
}

#[test]
fn constant_names() {
    assert!(is_valid_constant_name("CONSTANT"));
    assert!(is_valid_constant_name("CONSTANT_1"));
    assert!(is_valid_constant_name("MY_CONSTANT"));
    assert!(is_valid_constant_name("A"));
    assert!(!is_valid_constant_name("constant"));
    assert!(!is_valid_constant_name("CONSTANT-1"));
    assert!(!is_valid_constant_name("1CONSTANT"));
    assert!(!is_valid_constant_name("CONSTANT "));
    assert!(!is_valid_constant_name(""));
    assert!(!is_valid_constant_name("_A"));
    assert!(!is_valid_constant_name("ÄB"));
}
