use comcigan_rs::decoder::{decode, CODE_BASE, EMPTY_SUBJECT, SUBJECT_OFFSET};
use comcigan_rs::error::ComciganError;

fn table(names: &[&str]) -> Vec<String> {
    names.iter().map(|s| s.to_string()).collect()
}

fn pair(subject: &str, teacher: &str) -> Result<(String, String), ComciganError> {
    Ok((subject.to_string(), teacher.to_string()))
}

#[test]
fn the_convention_is_base_one_thousand() {
    assert_eq!(CODE_BASE, 1000);
    assert_eq!(SUBJECT_OFFSET, 1);
    assert_eq!(EMPTY_SUBJECT, "19");
}

#[test]
fn decode_splits_at_the_base() {
    let subjects = table(&["x", "19", "y"]);
    let teachers = table(&["a", "b", "c"]);
    assert_eq!(decode(1000, &subjects, &teachers), pair("x", "a"));
    assert_eq!(decode(1001, &subjects, &teachers), pair("x", "b"));
    assert_eq!(decode(1002, &subjects, &teachers), pair("x", "c"));
    assert_eq!(decode(3000, &subjects, &teachers), pair("y", "a"));
    assert_eq!(decode(3002, &subjects, &teachers), pair("y", "c"));
}

#[test]
fn codes_below_the_base_have_no_subject() {
    let subjects = table(&["x", "19", "y"]);
    let teachers: Vec<String> = (0..1000).map(|i| i.to_string()).collect();
    let mut code: u32 = 1;
    while code < 1000 {
        assert_eq!(code / CODE_BASE, 0);
        assert_eq!(decode(code, &subjects, &teachers), Err(ComciganError::CodeDecode));
        code += 1;
    }
    assert_eq!(decode(0, &subjects, &teachers), Err(ComciganError::CodeDecode));
    assert_eq!(decode(1000, &subjects, &teachers), pair("x", "0"));
}

#[test]
fn the_empty_subject_clears_both_texts() {
    let subjects = table(&["x", "19", "y"]);
    let teachers = table(&["a", "b", "c"]);
    assert_eq!(decode(2000, &subjects, &teachers), pair("", ""));
    assert_eq!(decode(2001, &subjects, &teachers), pair("", ""));
    assert_eq!(decode(2002, &subjects, &teachers), pair("", ""));
}

#[test]
fn the_empty_subject_still_needs_a_teacher_in_range() {
    let subjects = table(&["x", "19", "y"]);
    let teachers = table(&["a", "b", "c"]);
    assert_eq!(decode(2003, &subjects, &teachers), Err(ComciganError::CodeDecode));
}

#[test]
fn a_subject_that_only_starts_like_the_empty_one_is_kept() {
    let subjects = table(&["190", "1", "9", ""]);
    let teachers = table(&["a"]);
    assert_eq!(decode(1000, &subjects, &teachers), pair("190", "a"));
    assert_eq!(decode(2000, &subjects, &teachers), pair("1", "a"));
    assert_eq!(decode(3000, &subjects, &teachers), pair("9", "a"));
    assert_eq!(decode(4000, &subjects, &teachers), pair("", "a"));
}

#[test]
fn an_index_past_a_table_is_a_fault() {
    let subjects = table(&["x", "19", "y"]);
    let teachers = table(&["a", "b", "c"]);
    assert_eq!(decode(4000, &subjects, &teachers), Err(ComciganError::CodeDecode));
    assert_eq!(decode(1003, &subjects, &teachers), Err(ComciganError::CodeDecode));
    assert_eq!(decode(1999, &subjects, &teachers), Err(ComciganError::CodeDecode));
    assert_eq!(decode(4294967295, &subjects, &teachers), Err(ComciganError::CodeDecode));
}

#[test]
fn empty_tables_decode_nothing() {
    let none: Vec<String> = Vec::new();
    let some = table(&["a"]);
    assert_eq!(decode(1000, &none, &some), Err(ComciganError::CodeDecode));
    assert_eq!(decode(1000, &some, &none), Err(ComciganError::CodeDecode));
    assert_eq!(decode(1000, &some, &some), pair("a", "a"));
}
