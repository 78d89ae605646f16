use grocery_list::errors::ListError;
use grocery_list::lines::split_lines;
use grocery_list::partition::{sort_ingredients, Ingredients, Mode};
use grocery_list::paths::output_path;
use grocery_list::render::{
    compose_document, render_document, BEGIN_BALANCED_LIST, DOCUMENT_BEGIN, DOCUMENT_END,
    END_BALANCED_LIST, HEADING_ENDS, HEADING_START, PAGE_BREAK, TITLE_ALL, TITLE_PERSON_A,
    TITLE_PERSON_B,
};

fn four_items() -> Vec<String> {
    vec![
        "apples".to_string(),
        "bread".to_string(),
        "milk".to_string(),
        "eggs".to_string(),
    ]
}

fn expected_section(title: &str, items: &[&str]) -> String {
    let mut s = String::new();
    s.push_str(HEADING_START);
    s.push_str(title);
    s.push_str("\n");
    s.push_str(HEADING_ENDS);
    s.push_str(BEGIN_BALANCED_LIST);
    for item in items {
        s.push_str("\\item[] ");
        s.push_str(item);
        s.push_str("\n");
    }
    s.push_str(END_BALANCED_LIST);
    s
}

#[test]
fn new_buckets_are_empty() {
    let ing = Ingredients::new();
    assert!(ing.all.is_empty());
    assert!(ing.person_a.is_empty());
    assert!(ing.person_b.is_empty());
}

#[test]
fn single_mode_keeps_every_item_in_order() {
    let sorted = sort_ingredients(four_items(), Mode::Single);
    assert_eq!(sorted.all, four_items());
    assert!(sorted.person_a.is_empty());
    assert!(sorted.person_b.is_empty());
}

#[test]
fn split_two_round_trip_four_items() {
    let sorted = sort_ingredients(four_items(), Mode::SplitTwo);
    assert_eq!(sorted.all, four_items());
    assert_eq!(sorted.person_a, vec!["apples".to_string(), "milk".to_string()]);
    assert_eq!(sorted.person_b, vec!["bread".to_string(), "eggs".to_string()]);
}

#[test]
fn split_two_odd_count_lengths_add_up() {
    let items: Vec<String> = vec!["a", "b", "c", "d", "e"].into_iter().map(String::from).collect();
    let sorted = sort_ingredients(items.clone(), Mode::SplitTwo);
    assert_eq!(sorted.all, items);
    assert_eq!(sorted.person_a.len() + sorted.person_b.len(), sorted.all.len());
    assert_eq!(sorted.person_a, vec!["a".to_string(), "c".to_string(), "e".to_string()]);
    assert_eq!(sorted.person_b, vec!["b".to_string(), "d".to_string()]);
    // interleaving the halves back by position reconstructs the input
    let mut rebuilt = Vec::new();
    for i in 0..sorted.all.len() {
        if i % 2 == 0 {
            rebuilt.push(sorted.person_a[i / 2].clone());
        } else {
            rebuilt.push(sorted.person_b[i / 2].clone());
        }
    }
    assert_eq!(rebuilt, items);
}

#[test]
fn partition_is_pure() {
    let once = sort_ingredients(four_items(), Mode::SplitTwo);
    let twice = sort_ingredients(four_items(), Mode::SplitTwo);
    assert_eq!(once.all, twice.all);
    assert_eq!(once.person_a, twice.person_a);
    assert_eq!(once.person_b, twice.person_b);
}

#[test]
fn split_lines_basic() {
    assert_eq!(
        split_lines("apples\nbread\nmilk\neggs\n"),
        vec!["apples", "bread", "milk", "eggs"]
    );
}

#[test]
fn split_lines_handles_crlf_and_missing_final_newline() {
    assert_eq!(split_lines("apples\r\nbread\r\nmilk"), vec!["apples", "bread", "milk"]);
}

#[test]
fn split_lines_keeps_blank_lines() {
    assert_eq!(split_lines("apples\n\nbread"), vec!["apples", "", "bread"]);
    assert_eq!(split_lines("\n"), vec![""]);
}

#[test]
fn split_lines_empty_input() {
    assert_eq!(split_lines(""), Vec::<String>::new());
}

#[test]
fn empty_input_yields_empty_buckets_and_valid_document() {
    let items = split_lines("");
    let sorted = sort_ingredients(items, Mode::Single);
    assert!(sorted.all.is_empty());
    let doc = render_document(&sorted, Mode::Single, "20240101");
    let mut expected = String::new();
    expected.push_str(DOCUMENT_BEGIN);
    expected.push_str(&expected_section("20240101", &[]));
    expected.push_str(DOCUMENT_END);
    assert_eq!(doc, expected);
}

#[test]
fn single_document_exact_text() {
    let sorted = sort_ingredients(four_items(), Mode::Single);
    let doc = render_document(&sorted, Mode::Single, "20240102");
    let mut expected = String::new();
    expected.push_str(DOCUMENT_BEGIN);
    expected.push_str(&expected_section("20240102", &["apples", "bread", "milk", "eggs"]));
    expected.push_str(DOCUMENT_END);
    assert_eq!(doc, expected);
}

#[test]
fn split_document_exact_text() {
    let sorted = sort_ingredients(four_items(), Mode::SplitTwo);
    let doc = render_document(&sorted, Mode::SplitTwo, "unused");
    let mut expected = String::new();
    expected.push_str(DOCUMENT_BEGIN);
    expected.push_str(&expected_section(TITLE_ALL, &["apples", "bread", "milk", "eggs"]));
    expected.push_str(PAGE_BREAK);
    expected.push_str(&expected_section(TITLE_PERSON_A, &["apples", "milk"]));
    expected.push_str(PAGE_BREAK);
    expected.push_str(&expected_section(TITLE_PERSON_B, &["bread", "eggs"]));
    expected.push_str(DOCUMENT_END);
    assert_eq!(doc, expected);
}

#[test]
fn single_document_heading_carries_date_stamp() {
    let doc = compose_document(four_items(), Mode::Single);
    // exactly one section
    assert_eq!(doc.matches("\\begin{center}").count(), 1);
    // the four entries, in input order
    let body = &doc[doc.find(BEGIN_BALANCED_LIST).unwrap()..];
    let expect_entries = "\\item[] apples\n\\item[] bread\n\\item[] milk\n\\item[] eggs\n";
    assert!(body.contains(expect_entries));
    // the heading title is the date stamp: eight decimal digits
    let start = doc.find("\\medskip\n\n").unwrap() + "\\medskip\n\n".len();
    let end = start + doc[start..].find('\n').unwrap();
    let stamp = &doc[start..end];
    assert_eq!(stamp.len(), 8);
    assert!(stamp.chars().all(|c| c.is_ascii_digit()));
}

#[test]
fn split_document_from_compose_has_three_sections() {
    let doc = compose_document(four_items(), Mode::SplitTwo);
    assert_eq!(doc.matches("\\begin{center}").count(), 3);
    assert_eq!(doc.matches(PAGE_BREAK).count(), 2);
    assert!(doc.find(TITLE_ALL).unwrap() < doc.find(TITLE_PERSON_A).unwrap());
    assert!(doc.find(TITLE_PERSON_A).unwrap() < doc.find(TITLE_PERSON_B).unwrap());
}

#[test]
fn output_path_replaces_extension() {
    assert_eq!(output_path("groceries.txt"), "groceries.tex");
    assert_eq!(output_path("list.csv"), "list.tex");
}

#[test]
fn output_path_appends_when_no_extension() {
    assert_eq!(output_path("groceries"), "groceries.tex");
    assert_eq!(output_path(".bashrc"), ".bashrc.tex");
    assert_eq!(output_path("dir.d/file"), "dir.d/file.tex");
}

#[test]
fn output_path_uses_last_dot_of_file_name() {
    assert_eq!(output_path("a/b.c.d"), "a/b.c.tex");
    assert_eq!(output_path("dir/.hidden"), "dir/.hidden.tex");
}

#[test]
fn error_messages_name_the_failing_stage() {
    let cases: Vec<(ListError, &str)> = vec![
        (
            ListError::InputNotFound("list.txt: no such file".to_string()),
            "input file not found: list.txt: no such file",
        ),
        (
            ListError::InputNotReadable("list.txt: permission denied".to_string()),
            "could not read input file: list.txt: permission denied",
        ),
        (
            ListError::InputDecodeError("list.txt: invalid utf-8".to_string()),
            "input file is not valid text: list.txt: invalid utf-8",
        ),
        (
            ListError::OutputNotWritable("list.tex: permission denied".to_string()),
            "could not create output file: list.tex: permission denied",
        ),
        (
            ListError::OutputIOError("list.tex: disk full".to_string()),
            "could not write output file: list.tex: disk full",
        ),
    ];
    for (err, expected) in cases {
        assert_eq!(err.message(), expected);
    }
}
