//! Scenario tests: the empty text, single-line texts of each class, the
//! whitespace-only asymmetry, trailing separators, and repeated queries.

use source_utility::SourceUtility;

#[test]
fn empty_input_has_no_lines() {
    let obj = SourceUtility::new(String::new());

    assert_eq!(obj.count_total_lines(), 0);
    assert_eq!(obj.count_code_lines(), 0);
    assert_eq!(obj.count_empty_lines(), 0);
    assert_eq!(obj.count_comment_lines(), 0);
    assert_eq!(obj.count_code_symbols(), 0);
}

#[test]
fn single_code_line() {
    let obj = SourceUtility::new(String::from("abc"));

    assert_eq!(obj.count_total_lines(), 1);
    assert_eq!(obj.count_code_lines(), 1);
    assert_eq!(obj.count_empty_lines(), 0);
    assert_eq!(obj.count_comment_lines(), 0);
    assert_eq!(obj.count_code_symbols(), 3);
}

#[test]
fn whitespace_only_line_is_empty_yet_counts_symbols() {
    let obj = SourceUtility::new(String::from("   "));

    assert_eq!(obj.count_total_lines(), 1);
    assert_eq!(obj.count_empty_lines(), 1);
    assert_eq!(obj.count_comment_lines(), 0);
    assert_eq!(obj.count_code_lines(), 0);
    assert_eq!(obj.count_code_symbols(), 3);
}

#[test]
fn queries_are_idempotent() {
    let obj = SourceUtility::new(String::from("// a\n\nlet x = 1;\n   \n"));

    assert_eq!(obj.count_total_lines(), obj.count_total_lines());
    assert_eq!(obj.count_code_lines(), obj.count_code_lines());
    assert_eq!(obj.count_empty_lines(), obj.count_empty_lines());
    assert_eq!(obj.count_comment_lines(), obj.count_comment_lines());
    assert_eq!(obj.count_code_symbols(), obj.count_code_symbols());
}

#[test]
fn counts_partition_the_total() {
    let obj = SourceUtility::new(String::from("// a\n\nlet x = 1;\n   \nfn f() {}\n// b"));

    let total = obj.count_total_lines();
    let code = obj.count_code_lines();
    let empty = obj.count_empty_lines();
    let comment = obj.count_comment_lines();
    assert_eq!(code + empty + comment, total);
    assert_eq!(total, 6);
    assert_eq!(code, 2);
    assert_eq!(empty, 2);
    assert_eq!(comment, 2);
}

#[test]
fn trailing_newline_opens_no_line() {
    let obj = SourceUtility::new(String::from("a\n"));

    assert_eq!(obj.count_total_lines(), 1);
    assert_eq!(obj.count_code_lines(), 1);
    assert_eq!(obj.count_empty_lines(), 0);
    assert_eq!(obj.count_code_symbols(), 1);
}

#[test]
fn lone_newline_is_one_empty_line() {
    let obj = SourceUtility::new(String::from("\n"));

    assert_eq!(obj.count_total_lines(), 1);
    assert_eq!(obj.count_empty_lines(), 1);
    assert_eq!(obj.count_code_lines(), 0);
    assert_eq!(obj.count_comment_lines(), 0);
    assert_eq!(obj.count_code_symbols(), 0);
}

#[test]
fn indented_comment_is_a_comment() {
    let obj = SourceUtility::new(String::from("    // note"));

    assert_eq!(obj.count_total_lines(), 1);
    assert_eq!(obj.count_comment_lines(), 1);
    assert_eq!(obj.count_code_lines(), 0);
    assert_eq!(obj.count_code_symbols(), 0);
}

#[test]
fn single_slash_is_code() {
    let obj = SourceUtility::new(String::from("/"));

    assert_eq!(obj.count_total_lines(), 1);
    assert_eq!(obj.count_comment_lines(), 0);
    assert_eq!(obj.count_code_lines(), 1);
    assert_eq!(obj.count_code_symbols(), 1);
}

#[test]
fn comment_marker_needs_no_space_after() {
    let obj = SourceUtility::new(String::from("//"));

    assert_eq!(obj.count_total_lines(), 1);
    assert_eq!(obj.count_comment_lines(), 1);
    assert_eq!(obj.count_empty_lines(), 0);
    assert_eq!(obj.count_code_symbols(), 0);
}

#[test]
fn carriage_return_stays_part_of_the_line() {
    let obj = SourceUtility::new(String::from("x\r\ny\r"));

    assert_eq!(obj.count_total_lines(), 2);
    assert_eq!(obj.count_code_lines(), 2);
    assert_eq!(obj.count_empty_lines(), 0);
    // the carriage returns are characters of their lines, so they count
    assert_eq!(obj.count_code_symbols(), 4);
}

#[test]
fn non_ascii_symbols_count_characters_not_bytes() {
    let obj = SourceUtility::new(String::from("héllo\n// çomment"));

    assert_eq!(obj.count_total_lines(), 2);
    assert_eq!(obj.count_code_lines(), 1);
    assert_eq!(obj.count_comment_lines(), 1);
    assert_eq!(obj.count_code_symbols(), 5);
}

#[test]
fn tab_indented_comment_and_blank_tab_line() {
    let obj = SourceUtility::new(String::from("\t// c\n\t\n\tcode"));

    assert_eq!(obj.count_total_lines(), 3);
    assert_eq!(obj.count_comment_lines(), 1);
    assert_eq!(obj.count_empty_lines(), 1);
    assert_eq!(obj.count_code_lines(), 1);
    // the blank tab line still contributes its one character
    assert_eq!(obj.count_code_symbols(), 6);
}
