use dogen::splitter::{py_parse_args, py_range_to_string};

fn split(s: &str) -> Vec<String> {
    py_parse_args(&s.to_string())
}

fn phrase(s: &str) -> String {
    let mut r = s.to_string();
    py_range_to_string(&mut r);
    r
}

#[test]
fn split_empty_gives_one_empty_field() {
    assert_eq!(split(""), vec!["".to_string()]);
}

#[test]
fn split_plain_commas() {
    assert_eq!(split("a,b,c"), vec!["a", "b", "c"]);
}

#[test]
fn split_ignores_commas_inside_brackets() {
    // Brackets and what they enclose are left out of the fields.
    assert_eq!(split("f(a,b),c"), vec!["f", "c"]);
    assert_eq!(split("[1, 2], {3, 4}, 5"), vec!["", "", "5"]);
}

#[test]
fn split_drops_spaces() {
    assert_eq!(split(" 1 , 2 0 "), vec!["1", "20"]);
}

#[test]
fn split_unbalanced_brackets() {
    assert_eq!(split("a),b"), vec!["a"]);
    assert_eq!(split("(a,b"), vec![""]);
}

#[test]
fn split_trailing_comma() {
    assert_eq!(split("a,"), vec!["a", ""]);
}

#[test]
fn phrase_one_field() {
    assert_eq!(phrase("10"), "from 0 to 10");
}

#[test]
fn phrase_two_fields() {
    assert_eq!(phrase("len(x), 10"), "from len to 10");
    assert_eq!(phrase("2, n"), "from 2 to n");
}

#[test]
fn phrase_three_fields() {
    assert_eq!(phrase("1, 10, 2"), "from 1 to 10 with step 2");
}

#[test]
fn phrase_four_fields_left_unchanged() {
    assert_eq!(phrase("1, 2, 3, 4"), "1, 2, 3, 4");
}

#[test]
fn phrase_empty_text() {
    assert_eq!(phrase(""), "from 0 to ");
}
