use dsa_learning::import::{
    classify_field, is_dash_only, is_numbered_item, normalize_whitespace, parse_bullet_list,
    parse_field_header, parse_list_field, parse_txt_content, remove_number_prefix, set_problem_field,
    should_treat_as_continuation, validate_problem,
};
use dsa_learning::models::ParsedProblem;

fn header(line: &str) -> Option<(String, String)> {
    parse_field_header(line)
}

fn pair(name: &str, value: &str) -> Option<(String, String)> {
    Some((name.to_string(), value.to_string()))
}

fn strings(items: &[&str]) -> Vec<String> {
    items.iter().map(|s| s.to_string()).collect()
}

#[test]
fn new_problem_is_empty() {
    let p = ParsedProblem::new();
    assert_eq!(p.title, "");
    assert_eq!(p.description, "");
    assert_eq!(p.difficulty, "");
    assert!(p.topics.is_empty());
    assert!(p.tags.is_empty());
    assert!(p.leetcode_url.is_none());
    assert!(p.constraints.is_empty());
    assert!(p.hints.is_empty());
}

#[test]
fn headers_with_and_without_value() {
    assert_eq!(header("title: Two Sum"), pair("title", "Two Sum"));
    assert_eq!(header("Title:"), pair("title", ""));
    assert_eq!(header("## Difficulty :  Easy  "), pair("difficulty", "Easy"));
    assert_eq!(header("#TOPICS: arrays, hashing"), pair("topics", "arrays, hashing"));
    assert_eq!(header("hints:"), pair("hints", ""));
    assert_eq!(header("constraints: 1 <= n"), pair("constraints", "1 <= n"));
    assert_eq!(header("tags: a"), pair("tags", "a"));
    assert_eq!(header("description: x: y"), pair("description", "x: y"));
}

#[test]
fn leetcode_url_header() {
    assert_eq!(header("LeetCode URL: https://leetcode.com/x"), pair("leetcode_url", "https://leetcode.com/x"));
    assert_eq!(header("leetcode_url: u"), pair("leetcode_url", "u"));
}

#[test]
fn example_headers_keep_their_label() {
    assert_eq!(header("Example 1: in -> out"), pair("description", "Example 1:\nin -> out"));
    assert_eq!(header("# example:"), pair("description", "example:\n"));
    assert_eq!(header("EXAMPLES and more: z"), pair("description", "EXAMPLES and more:\nz"));
}

#[test]
fn other_lines_are_no_headers() {
    assert_eq!(header("just a line"), None);
    assert_eq!(header("note: something"), None);
    assert_eq!(header(": value"), None);
    assert_eq!(header(""), None);
    assert_eq!(header("###"), None);
    assert_eq!(header("Input: nums = [2,7]"), None);
    assert_eq!(header("title : x").unwrap().0, "title");
    assert_eq!(header(" # title: x"), None);
}

#[test]
fn header_lowercases_beyond_ascii() {
    assert_eq!(header("TITLE\u{0130}: x"), None);
    assert_eq!(header("EXAMPLE \u{00c9}: x"), pair("description", "EXAMPLE \u{00c9}:\nx"));
}

#[test]
fn classify_takes_the_lowercase_label_as_given() {
    assert_eq!(classify_field("title", "TiTle", "v"), pair("title", "v"));
    assert_eq!(classify_field("Title", "Title", "v"), None);
    assert_eq!(classify_field("example 2", "Example 2", "v"), pair("description", "Example 2:\nv"));
    assert_eq!(classify_field("leetcode url", "x", "v"), pair("leetcode_url", "v"));
    assert_eq!(classify_field("unknown", "x", "v"), None);
}

#[test]
fn whitespace_is_normalized() {
    assert_eq!(normalize_whitespace("  a   b \t c\u{a0}d  "), "a b c d");
    assert_eq!(normalize_whitespace(""), "");
    assert_eq!(normalize_whitespace(" \t "), "");
}

#[test]
fn numbered_items() {
    assert!(is_numbered_item("1. first"));
    assert!(is_numbered_item("12.x"));
    assert!(!is_numbered_item("1."));
    assert!(!is_numbered_item(".5"));
    assert!(!is_numbered_item("a. b"));
    assert!(!is_numbered_item("1a. b"));
    assert!(!is_numbered_item("no dot"));
    assert!(is_numbered_item("3.14. pi"));
    assert_eq!(remove_number_prefix("1. first"), "first");
    assert_eq!(remove_number_prefix("12.x"), "x");
    assert_eq!(remove_number_prefix("1."), "1.");
    assert_eq!(remove_number_prefix(".5"), ".5");
    assert_eq!(remove_number_prefix("a. b "), "b");
    assert_eq!(remove_number_prefix("no dot"), "no dot");
}

#[test]
fn dash_only_texts() {
    assert!(is_dash_only("-"));
    assert!(is_dash_only("- - -"));
    assert!(is_dash_only("\u{2013}\u{2014}\u{2212}"));
    assert!(is_dash_only(" "));
    assert!(!is_dash_only(""));
    assert!(!is_dash_only("-a"));
    assert!(!is_dash_only("*"));
    assert!(!is_dash_only("\u{2022}"));
}

#[test]
fn continuation_rules() {
    assert!(should_treat_as_continuation("and more", "and more"));
    assert!(should_treat_as_continuation("and more", "  and more"));
    assert!(!should_treat_as_continuation("and more", "   and more"));
    assert!(!should_treat_as_continuation("and more", "\t\u{a0}and more"));
    assert!(should_treat_as_continuation("and more", "\u{a0}and more"));
    assert!(!should_treat_as_continuation("The end", "The end"));
    assert!(should_treat_as_continuation("Then", "Then"));
    assert!(should_treat_as_continuation("These are", "These are"));
    for starter in ["The", "This", "When", "If", "Use", "Keep", "Remember", "Consider", "Try", "Again", "Also", "Another"] {
        let line = format!("{} x", starter);
        assert!(!should_treat_as_continuation(&line, &line), "{}", starter);
        assert!(should_treat_as_continuation(starter, starter), "{}", starter);
    }
    let long = "a".repeat(25) + " " + &"b".repeat(25);
    assert_eq!(long.len(), 51);
    assert!(!should_treat_as_continuation(&long, &long));
    let fifty = "a".repeat(25) + " " + &"b".repeat(24);
    assert!(should_treat_as_continuation(&fifty, &fifty));
    let no_space = "a".repeat(60);
    assert!(should_treat_as_continuation(&no_space, &no_space));
    let digit_first = "1".to_string() + &long;
    assert!(should_treat_as_continuation(&digit_first, &digit_first));
}

#[test]
fn bullet_lists() {
    assert_eq!(parse_bullet_list("- one\n- two\n* three\n-four"), strings(&["one", "two", "three", "four"]));
    assert_eq!(parse_bullet_list("1. one\n2. two\n10.ten"), strings(&["one", "two", "ten"]));
    assert_eq!(parse_bullet_list("first\nsecond"), strings(&["first second"]));
    assert_eq!(parse_bullet_list("- one\n  more of one\n- two"), strings(&["one more of one", "two"]));
    assert_eq!(parse_bullet_list("- one\n    indented line\n"), strings(&["one", "indented line"]));
    assert_eq!(parse_bullet_list("- one\nThe next sentence"), strings(&["one", "The next sentence"]));
    assert_eq!(parse_bullet_list(""), strings(&[]));
    assert_eq!(parse_bullet_list("\n\n  \n"), strings(&[]));
    assert_eq!(parse_bullet_list("-"), strings(&[]));
    assert_eq!(parse_bullet_list("*"), strings(&["*"]));
    assert_eq!(parse_bullet_list("- \n- x"), strings(&["x"]));
    assert_eq!(parse_bullet_list("- ---\n- x"), strings(&["x"]));
    assert_eq!(parse_bullet_list("-   spaced    out  "), strings(&["spaced out"]));
}

#[test]
fn bullet_lists_with_other_bullets() {
    assert_eq!(parse_bullet_list("\u{2022} one\n\u{2013} two\n\u{25aa}three"), strings(&["one", "two", "three"]));
    assert_eq!(parse_bullet_list("\u{2022}"), strings(&[]));
}

#[test]
fn items_longer_than_500_bytes_are_dropped() {
    let long = "x".repeat(501);
    let fits = "y".repeat(500);
    let text = format!("- {}\n- {}\n- z", long, fits);
    assert_eq!(parse_bullet_list(&text), vec![fits, "z".to_string()]);
}

#[test]
fn list_fields() {
    assert_eq!(parse_list_field("a, b,c ,, d"), strings(&["a", "b", "c", "d"]));
    assert_eq!(parse_list_field("single"), strings(&["single"]));
    assert_eq!(parse_list_field("a, b\nc, d"), strings(&["a, b c, d"]));
    assert_eq!(parse_list_field("- a, b\n- c"), strings(&["a, b", "c"]));
    assert_eq!(parse_list_field("1. a, b"), strings(&["a, b"]));
    assert_eq!(parse_list_field("v1.2, v1.3"), strings(&["v1.2", "v1.3"]));
    assert_eq!(parse_list_field("1.2, 1.3"), strings(&["2, 1.3"]));
    assert_eq!(parse_list_field(""), strings(&[]));
    assert_eq!(parse_list_field(",,"), strings(&[]));
    assert_eq!(parse_list_field("-x, y"), strings(&["x, y"]));
}

#[test]
fn fields_are_set() {
    let mut p = ParsedProblem::new();
    assert!(set_problem_field(&mut p, "title", "Two Sum").is_ok());
    assert!(set_problem_field(&mut p, "description", "Find two numbers").is_ok());
    assert!(set_problem_field(&mut p, "description", "Example 1:\nin").is_ok());
    assert!(set_problem_field(&mut p, "description", "").is_ok());
    assert!(set_problem_field(&mut p, "difficulty", "Easy").is_ok());
    assert!(set_problem_field(&mut p, "topics", "arrays, hashing").is_ok());
    assert!(set_problem_field(&mut p, "tags", "google, easy").is_ok());
    assert!(set_problem_field(&mut p, "leetcode_url", "").is_ok());
    assert!(p.leetcode_url.is_none());
    assert!(set_problem_field(&mut p, "leetcode_url", "https://x").is_ok());
    assert!(set_problem_field(&mut p, "constraints", "- n > 0\n- n < 10").is_ok());
    assert!(set_problem_field(&mut p, "hints", "1. think\n2. code").is_ok());
    assert_eq!(p.title, "Two Sum");
    assert_eq!(p.description, "Find two numbers\n\nExample 1:\nin");
    assert_eq!(p.difficulty, "Easy");
    assert_eq!(p.topics, strings(&["arrays", "hashing", "google", "easy"]));
    assert!(p.tags.is_empty());
    assert_eq!(p.leetcode_url, Some("https://x".to_string()));
    assert_eq!(p.constraints, strings(&["n > 0", "n < 10"]));
    assert_eq!(p.hints, strings(&["think", "code"]));
    assert!(set_problem_field(&mut p, "topics", "graphs").is_ok());
    assert_eq!(p.topics, strings(&["graphs"]));
}

#[test]
fn refused_values_leave_the_problem_as_it_was() {
    let mut p = ParsedProblem::new();
    assert_eq!(set_problem_field(&mut p, "title", ""), Err("Title cannot be empty".to_string()));
    assert_eq!(set_problem_field(&mut p, "description", ""), Err("Description cannot be empty".to_string()));
    assert_eq!(
        set_problem_field(&mut p, "difficulty", "easy"),
        Err("Invalid difficulty: easy. Must be Easy, Medium, or Hard".to_string())
    );
    assert_eq!(set_problem_field(&mut p, "difficulty", ""), Err("Invalid difficulty: . Must be Easy, Medium, or Hard".to_string()));
    assert_eq!(set_problem_field(&mut p, "colour", "red"), Err("Unknown field: colour".to_string()));
    assert_eq!(p.title, "");
    assert_eq!(p.description, "");
    assert_eq!(p.difficulty, "");
    for d in ["Easy", "Medium", "Hard"] {
        assert!(set_problem_field(&mut p, "difficulty", d).is_ok());
        assert_eq!(p.difficulty, d);
    }
}

#[test]
fn validation() {
    let mut p = ParsedProblem::new();
    assert_eq!(validate_problem(&p), Err("Title is required".to_string()));
    p.title = "t".to_string();
    assert_eq!(validate_problem(&p), Err("Description is required".to_string()));
    p.description = "d".to_string();
    assert_eq!(validate_problem(&p), Err("Difficulty is required".to_string()));
    p.difficulty = "Tough".to_string();
    assert_eq!(validate_problem(&p), Err("Invalid difficulty: Tough".to_string()));
    p.difficulty = "Hard".to_string();
    assert_eq!(validate_problem(&p), Ok(()));
}

const TWO_PROBLEMS: &str = "\
# Title: Two Sum
Description: Find two numbers
that add up to the target.
Example 1:
Input: nums = [2,7]
Output: [0,1]
Difficulty: Easy
Topics: arrays, hashing
LeetCode URL: https://leetcode.com/problems/two-sum
Constraints:
- 2 <= n
- n <= 10^4
Hints:
1. Use a map
2. One pass is enough
Tags: classic

title: Valid Parentheses
description: Check the brackets
difficulty: Medium
";

#[test]
fn a_text_with_two_problems() {
    let problems = parse_txt_content(TWO_PROBLEMS).unwrap();
    assert_eq!(problems.len(), 2);
    let first = &problems[0];
    assert_eq!(first.title, "Two Sum");
    assert_eq!(
        first.description,
        "Find two numbers\nthat add up to the target.\n\nExample 1:\n\nInput: nums = [2,7]\nOutput: [0,1]"
    );
    assert_eq!(first.difficulty, "Easy");
    assert_eq!(first.topics, strings(&["arrays", "hashing", "classic"]));
    assert_eq!(first.leetcode_url, Some("https://leetcode.com/problems/two-sum".to_string()));
    assert_eq!(first.constraints, strings(&["2 <= n", "n <= 10^4"]));
    assert_eq!(first.hints, strings(&["Use a map", "One pass is enough"]));
    let second = &problems[1];
    assert_eq!(second.title, "Valid Parentheses");
    assert_eq!(second.description, "Check the brackets");
    assert_eq!(second.difficulty, "Medium");
    assert!(second.topics.is_empty());
    assert!(second.leetcode_url.is_none());
}

#[test]
fn empty_text_has_no_problems() {
    assert_eq!(parse_txt_content("").unwrap().len(), 0);
    assert_eq!(parse_txt_content("\n\n   \n").unwrap().len(), 0);
    assert_eq!(parse_txt_content("some text\nwithout headers").unwrap().len(), 0);
    assert_eq!(parse_txt_content("difficulty: Nope\ndescription:").unwrap().len(), 0);
}

#[test]
fn refused_field_refuses_the_text() {
    let r = parse_txt_content("title: A\ndifficulty: Simple\ndescription: d");
    assert_eq!(r.err(), Some("Invalid difficulty: Simple. Must be Easy, Medium, or Hard".to_string()));
    let r = parse_txt_content("title:\ndescription: d");
    assert_eq!(r.err(), Some("Title cannot be empty".to_string()));
    let r = parse_txt_content("title: A\ndescription:\ndifficulty: Easy");
    assert_eq!(r.err(), Some("Description cannot be empty".to_string()));
    let r = parse_txt_content("title: A\ndescription: d\ndifficulty: Easy\ntitle: B\ndifficulty:");
    assert_eq!(r.err(), Some("Invalid difficulty: . Must be Easy, Medium, or Hard".to_string()));
}

#[test]
fn incomplete_problem_refuses_the_text() {
    let r = parse_txt_content("title: A\ndescription: d\ndifficulty: Easy\ntitle: B\ndescription: e");
    assert_eq!(r.err(), Some("Problem 2 validation failed: Difficulty is required".to_string()));
    let r = parse_txt_content("title: A\ndifficulty: Easy");
    assert_eq!(r.err(), Some("Problem 1 validation failed: Description is required".to_string()));
    let mut text = String::new();
    for i in 0..11 {
        text.push_str(&format!("title: P{}\ndescription: d\n", i));
        if i != 10 {
            text.push_str("difficulty: Hard\n");
        }
    }
    let r = parse_txt_content(&text);
    assert_eq!(r.err(), Some("Problem 11 validation failed: Difficulty is required".to_string()));
}

#[test]
fn values_continue_on_the_lines_below() {
    let problems = parse_txt_content("title:\n  Long\n  Name  \ndescription: a\n\n b \ndifficulty:\nHard\n").unwrap();
    assert_eq!(problems[0].title, "Long\nName");
    assert_eq!(problems[0].description, "a\nb");
    assert_eq!(problems[0].difficulty, "Hard");
}
