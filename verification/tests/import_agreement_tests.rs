//! The reader of problem texts against a second reading of the same
//! format, written with the string functions of the standard library.

use dsa_learning::import::{
    is_dash_only, is_numbered_item, normalize_whitespace, parse_bullet_list, parse_field_header, parse_list_field,
    parse_txt_content, remove_number_prefix, should_treat_as_continuation,
};
use dsa_learning::models::ParsedProblem;

#[derive(Debug, Clone, PartialEq)]
struct Expected {
    title: String,
    description: String,
    difficulty: String,
    topics: Vec<String>,
    tags: Vec<String>,
    leetcode_url: Option<String>,
    constraints: Vec<String>,
    hints: Vec<String>,
}

impl Expected {
    fn new() -> Self {
        Self {
            title: String::new(),
            description: String::new(),
            difficulty: String::new(),
            topics: Vec::new(),
            tags: Vec::new(),
            leetcode_url: None,
            constraints: Vec::new(),
            hints: Vec::new(),
        }
    }

    fn of(p: &ParsedProblem) -> Self {
        Self {
            title: p.title.clone(),
            description: p.description.clone(),
            difficulty: p.difficulty.clone(),
            topics: p.topics.clone(),
            tags: p.tags.clone(),
            leetcode_url: p.leetcode_url.clone(),
            constraints: p.constraints.clone(),
            hints: p.hints.clone(),
        }
    }
}

fn expected_parse_txt_content(content: &str) -> Result<Vec<Expected>, String> {
    let mut problems = Vec::new();
    let mut current_problem: Option<Expected> = None;
    let mut current_field: Option<String> = None;
    let mut current_value = String::new();
    
    
    for line in content.lines() {
        let line = line.trim();
        
        if line.is_empty() {
            continue;
        }

        if let Some((field_name, immediate_value)) = expected_parse_field_header(line) {
            
            if let (Some(ref mut problem), Some(ref field)) = (&mut current_problem, &current_field) {
                expected_set_problem_field(problem, field, &current_value.trim())?;
            }
            
            if field_name == "title" {
                if let Some(problem) = current_problem.take() {
                    problems.push(problem);
                }
                current_problem = Some(Expected::new());
            }
            
            current_field = Some(field_name.clone());
            
            if !immediate_value.is_empty() {
                current_value = immediate_value;
            } else {
                current_value.clear();
            }
        } else {
            if !current_value.is_empty() {
                current_value.push('\n');
            }
            current_value.push_str(line);
        }
    }
    
    if let (Some(ref mut problem), Some(ref field)) = (&mut current_problem, &current_field) {
        expected_set_problem_field(problem, field, &current_value.trim())?;
    }
    if let Some(problem) = current_problem {
        problems.push(problem);
    }

    for (index, problem) in problems.iter().enumerate() {
        if let Err(e) = expected_validate_problem(problem) {
            return Err(format!("Problem {} validation failed: {}", index + 1, e));
        }
    }
    
    Ok(problems)
}

fn expected_parse_field_header(line: &str) -> Option<(String, String)> {
    if line.trim_start_matches('#').trim().contains(':') {
        let cleaned_line = line.trim_start_matches('#').trim();
        if let Some(colon_pos) = cleaned_line.find(':') {
            let field_part = &cleaned_line[..colon_pos];
            let value_part = &cleaned_line[colon_pos + 1..];
            
            let field = field_part.trim().to_lowercase();
            let value = value_part.trim().to_string();

            let (normalized_field, is_example) = if field.starts_with("example") {
                ("description".to_string(), true)
            } else if field == "leetcode url" {
                ("leetcode_url".to_string(), false)
            } else {
                (field.clone(), false)
            };
            
            match normalized_field.as_str() {
                "title" | "description" | "difficulty" | "topics" | "leetcode_url" | 
                "constraints" | "hints" | "tags" => {
                    let formatted_value = if is_example {
                        format!("{}:\n{}", field_part.trim(), value)
                    } else {
                        value
                    };
                    Some((normalized_field, formatted_value))
                },
                _ => {
                    None
                }
            }
        } else {
            None
        }
    } else {
        None
    }
}

fn expected_set_problem_field(problem: &mut Expected, field: &str, value: &str) -> Result<(), String> {
    match field {
        "title" => {
            if value.is_empty() {
                return Err("Title cannot be empty".to_string());
            }
            problem.title = value.to_string();
        },
        "description" => {
            if value.is_empty() && problem.description.is_empty() {
                return Err("Description cannot be empty".to_string());
            }
            if !problem.description.is_empty() && !value.is_empty() {
                problem.description.push_str("\n\n");
                problem.description.push_str(value);
            } else if !value.is_empty() {
                problem.description = value.to_string();
            }
        },
        "difficulty" => {
            let difficulty = value.to_string();
            if !["Easy", "Medium", "Hard"].contains(&difficulty.as_str()) {
                return Err(format!("Invalid difficulty: {}. Must be Easy, Medium, or Hard", difficulty));
            }
            problem.difficulty = difficulty;
        },
        "topics" => {
            problem.topics = expected_parse_list_field(value);
        },
        "leetcode_url" => {
            if !value.is_empty() {
                problem.leetcode_url = Some(value.to_string());
            }
        },
        "constraints" => {
            problem.constraints = expected_parse_list_field(value);
        },
        "hints" => {
            problem.hints = expected_parse_list_field(value);
        },
        "tags" => {
            problem.topics.extend(expected_parse_list_field(value));
        },
        _ => return Err(format!("Unknown field: {}", field)),
    }
    Ok(())
}

fn expected_parse_list_field(value: &str) -> Vec<String> {
    let has_bullet_indicators = value.lines().any(|line| {
        let trimmed = line.trim();
        let dash_chars = ['-', '\u{2013}', '\u{2014}', '\u{2212}', '\u{2219}', '\u{2022}', '\u{25e6}', '\u{25aa}', '\u{25ab}', '*'];
        for &dash in &dash_chars {
            if trimmed.starts_with(&format!("{} ", dash)) || 
               (trimmed.starts_with(dash) && trimmed.len() > 1) {
                return true;
            }
        }
        if let Some(pos) = trimmed.find('.') {
            if pos > 0 && trimmed[..pos].chars().all(|c| c.is_ascii_digit()) {
                return true;
            }
        }
        false
    });
    
    if has_bullet_indicators {
        expected_parse_bullet_list(value)
    } else if value.contains(',') && !value.contains('\n') {
        value.split(',')
            .map(|s| s.trim().to_string())
            .filter(|s| !s.is_empty())
            .collect()
    } else {
        expected_parse_bullet_list(value)
    }
}

fn expected_parse_bullet_list(value: &str) -> Vec<String> {
    let dash_chars = ['-', '\u{2013}', '\u{2014}', '\u{2212}', '\u{2219}', '\u{2022}', '\u{25e6}', '\u{25aa}', '\u{25ab}', '*'];
    let lines: Vec<&str> = value.lines().collect();
    let mut items = Vec::new();

    for line in lines.iter() {
        let trimmed = expected_normalize_whitespace(line);

        if trimmed.is_empty() {
            continue;
        }
        
        let mut found_bullet = false;
        for &dash in &dash_chars {
            let dash_with_space = format!("{} ", dash);
            if trimmed.starts_with(&dash_with_space) {
                let content = trimmed[2..].trim().to_string();
                if !content.is_empty() {
                    items.push(content);
                }
                found_bullet = true;
                break;
            } else if trimmed.starts_with(dash) && trimmed.len() > 1 {
                let content = trimmed[1..].trim().to_string();
                if !content.is_empty() {
                    items.push(content);
                }
                found_bullet = true;
                break;
            }
        }
        
        if !found_bullet && expected_is_numbered_item(&trimmed) {
            let content = expected_remove_number_prefix(&trimmed);
            if !content.is_empty() {
                items.push(content);
            }
            found_bullet = true;
        }
        
        if !found_bullet {
            if items.is_empty() {
                items.push(trimmed);
            } else if expected_should_treat_as_continuation(&trimmed, line) {
                if let Some(last) = items.last_mut() {
                    last.push(' ');
                    last.push_str(&trimmed);
                }
            } else {
                items.push(trimmed);
            }
        }
    }
    
    let result = items.into_iter()
        .map(|item| item.trim().to_string())
        .filter(|item| {
            !item.is_empty() && 
            item.len() <= 500 &&
            !expected_is_dash_only(item)
        })
        .collect::<Vec<String>>();
        
    result
}

fn expected_normalize_whitespace(text: &str) -> String {
    text.chars()
        .map(|c| match c {
            '\u{00A0}' | '\u{2007}' | '\u{202F}' => ' ', // Non-breaking spaces
            c => c,
        })
        .collect::<String>()
        .split_whitespace()
        .collect::<Vec<&str>>()
        .join(" ")
}

fn expected_is_numbered_item(text: &str) -> bool {
    if let Some(pos) = text.find('.') {
        if pos > 0 {
            let number_part = &text[..pos];
            return number_part.chars().all(|c| c.is_ascii_digit()) && text.len() > pos + 1;
        }
    }
    false
}

fn expected_remove_number_prefix(text: &str) -> String {
    if let Some(pos) = text.find('.') {
        if pos > 0 && pos + 1 < text.len() {
            return text[pos + 1..].trim().to_string();
        }
    }
    text.to_string()
}

fn expected_should_treat_as_continuation(trimmed: &str, original_line: &str) -> bool {
    if trimmed.len() > 50 && trimmed.contains(' ') && trimmed.chars().next().map_or(false, |c| c.is_ascii_alphabetic()) {
        return false;
    }
    
    let leading_whitespace = original_line.len() - original_line.trim_start().len();
    if leading_whitespace > 2 {
        return false;
    }
    
    let sentence_starters = ["The", "This", "When", "If", "Use", "Keep", "Remember", "Consider", "Try", "Again", "Also", "Another"];
    for starter in &sentence_starters {
        if trimmed.starts_with(&format!("{} ", starter)) {
            return false;
        }
    }
    
    true
}

fn expected_is_dash_only(text: &str) -> bool {
    let dash_chars = ['-', '\u{2013}', '\u{2014}', '\u{2212}'];
    !text.is_empty() && text.chars().all(|c| dash_chars.contains(&c) || c.is_whitespace())
}

fn expected_validate_problem(problem: &Expected) -> Result<(), String> {
    if problem.title.is_empty() {
        return Err("Title is required".to_string());
    }
    if problem.description.is_empty() {
        return Err("Description is required".to_string());
    }
    if problem.difficulty.is_empty() {
        return Err("Difficulty is required".to_string());
    }
    if !["Easy", "Medium", "Hard"].contains(&problem.difficulty.as_str()) {
        return Err(format!("Invalid difficulty: {}", problem.difficulty));
    }
    Ok(())
}

/// A small generator of numbers that gives the same run every time.
struct Numbers(u64);

impl Numbers {
    fn next(&mut self) -> usize {
        self.0 = self.0.wrapping_mul(6364136223846793005).wrapping_add(1442695040888963407);
        (self.0 >> 33) as usize
    }

    fn pick<'a>(&mut self, from: &[&'a str]) -> &'a str {
        from[self.next() % from.len()]
    }
}

const PIECES: &[&str] = &[
    "title", "Title", "TITLE", "description", "Description", "difficulty", "topics", "tags", "hints",
    "constraints", "leetcode url", "LeetCode URL", "leetcode_url", "Example 1", "example", "note", "Input",
    ":", ":", ":", ": ", " : ", "#", "## ", "- ", "-", "* ", "*", "--", "1. ", "2.", "10. ", "1.5", ".", ",", ", ",
    " ", "  ", "   ", "    ", "\t", "\u{a0}", "\u{2003}", "Easy", "Medium", "Hard", "easy", "arrays", "hash map",
    "two pointers", "The ", "This ", "When ", "If ", "Use ", "Also ", "Another ", "Then ", "x", "y", "caf\u{e9}",
    "\u{4e2d}\u{6587}", "https://leetcode.com/problems/two-sum",
    "a line that is long enough to count as prose of its own right here",
    "averyveryverylongwordthathasnospaceinitatallandgoesonandonandonandon",
];

fn line(numbers: &mut Numbers) -> String {
    let count = numbers.next() % 6;
    let mut text = String::new();
    for _ in 0..count {
        text.push_str(numbers.pick(PIECES));
    }
    text
}

fn text(numbers: &mut Numbers, lines: usize) -> String {
    let mut content = String::new();
    for _ in 0..lines {
        content.push_str(&line(numbers));
        content.push_str(numbers.pick(&["\n", "\n", "\n", "\r\n", "\n\n"]));
    }
    if numbers.next() % 3 == 0 {
        content.push_str(&line(numbers));
    }
    content
}

#[test]
fn line_helpers_agree_on_generated_lines() {
    let mut numbers = Numbers(1);
    for _ in 0..20000 {
        let l = line(&mut numbers);
        assert_eq!(parse_field_header(&l), expected_parse_field_header(&l), "{:?}", l);
        assert_eq!(normalize_whitespace(&l), expected_normalize_whitespace(&l), "{:?}", l);
        assert_eq!(is_numbered_item(&l), expected_is_numbered_item(&l), "{:?}", l);
        assert_eq!(remove_number_prefix(&l), expected_remove_number_prefix(&l), "{:?}", l);
        assert_eq!(is_dash_only(&l), expected_is_dash_only(&l), "{:?}", l);
        let t = normalize_whitespace(&l);
        assert_eq!(should_treat_as_continuation(&t, &l), expected_should_treat_as_continuation(&t, &l), "{:?}", l);
    }
}

#[test]
fn lists_agree_on_generated_texts() {
    let mut numbers = Numbers(2);
    for round in 0..6000 {
        let value = text(&mut numbers, round % 5);
        assert_eq!(parse_bullet_list(&value), expected_parse_bullet_list(&value), "{:?}", value);
        assert_eq!(parse_list_field(&value), expected_parse_list_field(&value), "{:?}", value);
        let single = line(&mut numbers);
        assert_eq!(parse_list_field(&single), expected_parse_list_field(&single), "{:?}", single);
    }
}

#[test]
fn problems_agree_on_generated_texts() {
    let mut numbers = Numbers(3);
    let mut accepted = 0;
    for round in 0..6000 {
        let mut content = text(&mut numbers, round % 12);
        if round % 2 == 0 {
            content = format!(
                "title: T{}\ndescription: some words\n{}difficulty: {}\n{}",
                round,
                text(&mut numbers, round % 4),
                numbers.pick(&["Easy", "Medium", "Hard", "Hard", "Other"]),
                content
            );
        }
        let found = parse_txt_content(&content).map(|ps| ps.iter().map(Expected::of).collect::<Vec<_>>());
        let expected = expected_parse_txt_content(&content);
        if expected.is_ok() {
            accepted += 1;
        }
        assert_eq!(found, expected, "{:?}", content);
    }
    assert!(accepted > 100, "only {} texts were accepted", accepted);
}
