use dogen::driver::process;
use dogen::engine::{
    comment_for, generate_comment, infer, rule_at, rule_fires, taken_groups, Rule, RULE_COUNT,
};

fn strings(v: &[&str]) -> Vec<String> {
    v.iter().map(|s| s.to_string()).collect()
}

#[test]
fn hash_suppresses_comment() {
    assert_eq!(infer("x = 1 # already"), "");
    assert_eq!(infer("print(\"a#b\")"), "");
    assert_eq!(infer("#"), "");
}

#[test]
fn increase_takes_precedence_over_add() {
    assert_eq!(infer("x += 1"), "# Increase x by one");
}

#[test]
fn decrease_takes_precedence_over_subtract() {
    assert_eq!(infer("x -= 1"), "# Decrease x by one");
}

#[test]
fn define_function() {
    assert_eq!(infer("def foo(a, b):"), "# Define function foo");
}

#[test]
fn loop_forever() {
    assert_eq!(infer("while True:"), "# Loop forever");
}

#[test]
fn repeat_while() {
    assert_eq!(infer("while x < 3:"), "# Repeat while x < 3 is true");
}

#[test]
fn loop_range_end() {
    assert_eq!(infer("for i in range(10):"), "# Loop from 0 to 10");
}

#[test]
fn loop_range_step() {
    assert_eq!(infer("for i in range(1, 10, 2):"), "# Loop from 1 to 10 with step 2");
}

#[test]
fn loop_range_bad_arity() {
    assert_eq!(infer("for i in range(1,2,3,4):"), "# Loop 1,2,3,4");
}

#[test]
fn loop_through() {
    assert_eq!(infer("for x in items:"), "# Loop through items");
}

#[test]
fn print_string_is_silent() {
    assert_eq!(infer("print(\"hello\")"), "");
}

#[test]
fn print_value() {
    assert_eq!(infer("print x"), "# Print value of x");
    assert_eq!(infer("print(x)"), "# Print value of x");
}

#[test]
fn print_result() {
    assert_eq!(infer("print x + 1"), "# Print result of x + 1");
}

#[test]
fn assignment() {
    assert_eq!(infer("y = x + 1"), "# Set y to x + 1");
}

#[test]
fn add_and_subtract() {
    assert_eq!(infer("x += 2"), "# Add 2 to x");
    assert_eq!(infer("total -= y"), "# Subtract y from total");
}

#[test]
fn unmatched_line_has_no_comment() {
    assert_eq!(infer("return x"), "");
    assert_eq!(infer(""), "");
}

#[test]
fn generate_comment_in_place() {
    let mut s = "while True:".to_string();
    generate_comment(&mut s);
    assert_eq!(s, "# Loop forever");
}

#[test]
fn rule_order_is_fixed() {
    let order: Vec<Rule> = (0..RULE_COUNT).map(rule_at).collect();
    assert_eq!(
        order,
        vec![
            Rule::Define,
            Rule::Assign,
            Rule::LoopForever,
            Rule::RepeatWhile,
            Rule::LoopRange,
            Rule::LoopThrough,
            Rule::PrintText,
            Rule::PrintValue,
            Rule::PrintBare,
            Rule::PrintCall,
            Rule::Increase,
            Rule::Decrease,
            Rule::AddTo,
            Rule::SubtractFrom,
        ]
    );
}

#[test]
fn rendering_from_given_groups() {
    assert_eq!(comment_for(Rule::Assign, &strings(&["a", "b"])), "# Set a to b");
    assert_eq!(comment_for(Rule::AddTo, &strings(&["n", "k"])), "# Add k to n");
    assert_eq!(comment_for(Rule::SubtractFrom, &strings(&["n", "k"])), "# Subtract k from n");
    assert_eq!(comment_for(Rule::LoopRange, &strings(&["3, 7"])), "# Loop from 3 to 7");
    assert_eq!(comment_for(Rule::PrintText, &strings(&["hi"])), "");
    assert_eq!(comment_for(Rule::LoopForever, &strings(&[])), "# Loop forever");
}

fn groups(v: &[Option<&str>]) -> Vec<Option<String>> {
    v.iter().map(|o| o.map(|s| s.to_string())).collect()
}

#[test]
fn firing_from_given_captures() {
    assert!(!rule_fires(Rule::Define, &None));
    assert!(rule_fires(Rule::LoopForever, &Some(vec![])));
    assert!(!rule_fires(Rule::Define, &Some(groups(&[Some("")]))));
    assert!(!rule_fires(Rule::Define, &Some(groups(&[None]))));
    assert!(rule_fires(Rule::Define, &Some(groups(&[Some("f")]))));
    assert!(!rule_fires(Rule::Assign, &Some(groups(&[Some("a")]))));
    assert!(!rule_fires(Rule::Assign, &Some(groups(&[Some("a"), None]))));
    assert!(rule_fires(Rule::Assign, &Some(groups(&[Some("a"), Some("")]))));
}

#[test]
fn taking_groups_that_took_part() {
    let g = groups(&[Some("a"), Some("b"), None]);
    assert_eq!(taken_groups(&g, 2), strings(&["a", "b"]));
    assert_eq!(taken_groups(&g, 0), strings(&[]));
}

#[test]
fn print_call_drops_parentheses() {
    assert_eq!(infer("print(x + 1)"), "# Print result of x + 1");
    assert_eq!(infer("print (a, b)"), "# Print result of a, b");
}

#[test]
fn keywords_must_end() {
    assert_eq!(infer("define = 5"), "# Set define to 5");
    assert_eq!(infer("printer"), "");
    assert_eq!(infer("printx + 1"), "");
    assert_eq!(infer("def foo:"), "");
}

#[test]
fn print_string_forms() {
    assert_eq!(infer("print \"hello\""), "");
    assert_eq!(infer("print (\"hello\")"), "");
}

#[test]
fn document_empty_lines_stay_empty() {
    let out = process(&strings(&["", "x = 1", ""]));
    assert_eq!(out, strings(&["", "x = 1 # Set x to 1", ""]));
}

#[test]
fn document_trims_before_inference() {
    let out = process(&strings(&["    count += 1  ", "   "]));
    assert_eq!(out, strings(&["    count += 1   # Increase count by one", "    "]));
}

#[test]
fn document_rerun_adds_no_comment() {
    let doc = strings(&["def f(x):", "    print(\"hi\")", "", "    y = x"]);
    let once = process(&doc);
    let twice = process(&once);
    for (a, b) in once.iter().zip(twice.iter()) {
        if a.is_empty() {
            assert_eq!(b, "");
        } else {
            assert_eq!(b, &format!("{} ", a));
        }
    }
    assert_eq!(once[0], "def f(x): # Define function f");
}
