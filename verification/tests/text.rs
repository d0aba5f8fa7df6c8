use nrs::text::{
    chars_of, contains, decimal, ends_with, find_from, join, occurs, replace_char, replace_text,
    same_text, slice_of, split_lines, split_on, starts_with, string_of, strings_of,
    strip_leading_char, strip_leading_text, strip_trailing_char, trim, trim_each,
};

fn cs(s: &str) -> Vec<char> {
    chars_of(s)
}

fn strs(lines: &Vec<Vec<char>>) -> Vec<String> {
    strings_of(lines)
}

#[test]
fn chars_and_strings_round_trip() {
    assert_eq!(cs("héllo"), vec!['h', 'é', 'l', 'l', 'o']);
    assert_eq!(string_of(&cs("héllo wörld")), "héllo wörld");
    assert_eq!(string_of(&Vec::new()), "");
}

#[test]
fn lines_drop_terminators() {
    assert_eq!(strs(&split_lines(&cs("foo\nbar\n\r\nbaz\r"))), vec!["foo", "bar", "", "baz\r"]);
}

#[test]
fn lines_of_empty_text_are_none() {
    assert!(split_lines(&cs("")).is_empty());
}

#[test]
fn lines_ignore_one_final_line_feed() {
    assert_eq!(strs(&split_lines(&cs("a\n"))), vec!["a"]);
    assert_eq!(strs(&split_lines(&cs("a\n\n"))), vec!["a", ""]);
    assert_eq!(strs(&split_lines(&cs("\n"))), vec![""]);
}

#[test]
fn lines_strip_carriage_return_before_line_feed() {
    assert_eq!(strs(&split_lines(&cs("a\r\nb\r\n"))), vec!["a", "b"]);
    assert_eq!(strs(&split_lines(&cs("a\r\r\nb"))), vec!["a\r", "b"]);
}

#[test]
fn lines_agree_with_std() {
    for text in ["", "x", "x\n", "\n\nx", "a\r\nb\rc\n", "one\ntwo\r", "\r\n\r\n"] {
        let expected: Vec<String> = text.lines().map(|l| l.to_string()).collect();
        assert_eq!(strs(&split_lines(&cs(text))), expected);
    }
}

#[test]
fn contains_finds_a_middle_part() {
    assert!(contains(&cs("hello world"), &cs("lo w")));
    assert!(!contains(&cs("hello world"), &cs("low")));
    assert!(contains(&cs("abc"), &cs("")));
    assert!(contains(&cs(""), &cs("")));
    assert!(!contains(&cs(""), &cs("a")));
    assert!(contains(&cs("abc"), &cs("abc")));
    assert!(!contains(&cs("abc"), &cs("abcd")));
}

#[test]
fn occurs_checks_one_position() {
    assert!(occurs(&cs("abcabc"), &cs("bc"), 1));
    assert!(!occurs(&cs("abcabc"), &cs("bc"), 2));
    assert!(occurs(&cs("abcabc"), &cs("bc"), 4));
    assert!(!occurs(&cs("abcabc"), &cs("bc"), 5));
    assert!(occurs(&cs("abc"), &cs(""), 3));
    assert!(!occurs(&cs("abc"), &cs(""), 4));
}

#[test]
fn find_from_gives_first_occurrence() {
    assert_eq!(find_from(&cs("abcabc"), &cs("bc"), 0), Some(1));
    assert_eq!(find_from(&cs("abcabc"), &cs("bc"), 2), Some(4));
    assert_eq!(find_from(&cs("abcabc"), &cs("bc"), 5), None);
    assert_eq!(find_from(&cs("abc"), &cs("x"), 0), None);
}

#[test]
fn starts_and_ends() {
    assert!(starts_with(&cs("title: x"), &cs("title:")));
    assert!(!starts_with(&cs(" title: x"), &cs("title:")));
    assert!(ends_with(&cs("app.js"), &cs(".js")));
    assert!(!ends_with(&cs("js"), &cs(".js")));
    assert!(ends_with(&cs("x"), &cs("")));
}

#[test]
fn same_text_compares_all_characters() {
    assert!(same_text(&cs("abc"), &cs("abc")));
    assert!(!same_text(&cs("abc"), &cs("abd")));
    assert!(!same_text(&cs("abc"), &cs("ab")));
    assert!(same_text(&cs(""), &cs("")));
}

#[test]
fn replace_char_turns_every_occurrence() {
    assert_eq!(string_of(&replace_char(&cs("a_b__c"), '_', ' ')), "a b  c");
    assert_eq!(string_of(&replace_char(&cs("abc"), '_', ' ')), "abc");
}

#[test]
fn replace_text_goes_left_to_right() {
    assert_eq!(string_of(&replace_text(&cs("aaa"), &cs("aa"), &cs("b"))), "ba");
    assert_eq!(string_of(&replace_text(&cs("a  b   c"), &cs("  "), &cs("__"))), "a__b__ c");
    assert_eq!(string_of(&replace_text(&cs("x\ny\n"), &cs("\n"), &cs("<br>"))), "x<br>y<br>");
    assert_eq!(string_of(&replace_text(&cs("abc"), &cs(""), &cs("-"))), "abc");
    assert_eq!(string_of(&replace_text(&cs("a crossorigin b"), &cs(" crossorigin"), &cs(""))), "a b");
}

#[test]
fn replace_text_agrees_with_std() {
    for (text, from, to) in [("abcabc", "bc", "x"), ("aaaa", "aa", "a"), ("", "a", "b"), ("xyz", "xyz", "")] {
        assert_eq!(string_of(&replace_text(&cs(text), &cs(from), &cs(to))), text.replace(from, to));
    }
}

#[test]
fn slice_takes_a_range() {
    assert_eq!(string_of(&slice_of(&cs("abcdef"), 2, 4)), "cd");
    assert_eq!(string_of(&slice_of(&cs("abcdef"), 3, 3)), "");
}

#[test]
fn trim_removes_white_space_at_both_ends() {
    assert_eq!(string_of(&trim(&cs("  a b \t\n"))), "a b");
    assert_eq!(string_of(&trim(&cs(" \u{a0}\u{3000}x\u{2003}"))), "x");
    assert_eq!(string_of(&trim(&cs("   "))), "");
    assert_eq!(string_of(&trim(&cs(""))), "");
    assert_eq!(string_of(&trim(&cs("x"))), "x");
}

#[test]
fn trim_each_trims_every_part() {
    assert_eq!(strs(&trim_each(&vec![cs(" a"), cs("b "), cs("  ")])), vec!["a", "b", ""]);
}

#[test]
fn strip_runs_of_one_character() {
    assert_eq!(string_of(&strip_leading_char(&cs(":::cmd:"), ':')), "cmd:");
    assert_eq!(string_of(&strip_leading_char(&cs("cmd"), ':')), "cmd");
    assert_eq!(string_of(&strip_leading_char(&cs("::"), ':')), "");
    assert_eq!(string_of(&strip_trailing_char(&cs("[a]]"), ']')), "[a");
    assert_eq!(string_of(&strip_trailing_char(&cs("]]"), ']')), "");
}

#[test]
fn strip_leading_text_takes_every_repetition() {
    assert_eq!(string_of(&strip_leading_text(&cs("title:title: x"), &cs("title:"))), " x");
    assert_eq!(string_of(&strip_leading_text(&cs("titl: x"), &cs("title:"))), "titl: x");
    assert_eq!(string_of(&strip_leading_text(&cs("abc"), &cs(""))), "abc");
}

#[test]
fn split_on_keeps_empty_pieces() {
    assert_eq!(strs(&split_on(&cs("a,b,,c"), ',')), vec!["a", "b", "", "c"]);
    assert_eq!(strs(&split_on(&cs(""), ',')), vec![""]);
    assert_eq!(strs(&split_on(&cs(","), ',')), vec!["", ""]);
    assert_eq!(strs(&split_on(&cs("abc"), ',')), vec!["abc"]);
}

#[test]
fn join_puts_separator_between() {
    assert_eq!(string_of(&join(&vec![cs("a"), cs("b"), cs("c")], &cs(", "))), "a, b, c");
    assert_eq!(string_of(&join(&vec![cs("a")], &cs(", "))), "a");
    assert_eq!(string_of(&join(&Vec::new(), &cs(", "))), "");
    assert_eq!(string_of(&join(&vec![cs(""), cs("")], &cs("-"))), "-");
}

#[test]
fn decimal_numerals() {
    assert_eq!(string_of(&decimal(0)), "0");
    assert_eq!(string_of(&decimal(7)), "7");
    assert_eq!(string_of(&decimal(10)), "10");
    assert_eq!(string_of(&decimal(1203)), "1203");
    assert_eq!(string_of(&decimal(9876543210)), "9876543210");
}
