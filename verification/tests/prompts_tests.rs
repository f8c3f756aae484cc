use intersect::anthropic::{
    completion_error_message, completion_text, first_text, max_tokens_or_default,
    status_is_success, validation_error_message, validation_outcome, CompletionFailure,
    ContentBlock, ErrorDetails, DEFAULT_MAX_TOKENS,
};
use intersect::disco_prompts::{
    get_disco_prompt, prompt_for, INSTINCT_DISCO_PROMPT, LOGIC_DISCO_PROMPT, PSYCHE_DISCO_PROMPT,
};
use intersect::text::{comes_before, precedes, same_bytes, same_text};

fn block(kind: &str, text: Option<&str>) -> ContentBlock {
    ContentBlock { content_type: kind.to_string(), text: text.map(|t| t.to_string()) }
}

fn details() -> ErrorDetails {
    ErrorDetails { message: "Overloaded".to_string(), error_type: "overloaded_error".to_string() }
}

#[test]
fn disco_prompt_by_agent_name() {
    assert_eq!(get_disco_prompt("instinct"), Some(INSTINCT_DISCO_PROMPT));
    assert_eq!(get_disco_prompt("logic"), Some(LOGIC_DISCO_PROMPT));
    assert_eq!(get_disco_prompt("psyche"), Some(PSYCHE_DISCO_PROMPT));
    assert_eq!(get_disco_prompt("nobody"), None);
    assert_eq!(get_disco_prompt(""), None);
}

#[test]
fn disco_prompt_ignores_case() {
    assert_eq!(get_disco_prompt("LOGIC"), Some(LOGIC_DISCO_PROMPT));
    assert_eq!(get_disco_prompt("Psyche"), Some(PSYCHE_DISCO_PROMPT));
    assert_eq!(get_disco_prompt("iNsTiNcT"), Some(INSTINCT_DISCO_PROMPT));
    assert_eq!(get_disco_prompt(" logic"), None);
}

#[test]
fn prompt_for_takes_lowercase_names_only() {
    assert_eq!(prompt_for("logic"), Some(LOGIC_DISCO_PROMPT));
    assert_eq!(prompt_for("LOGIC"), None);
    assert!(LOGIC_DISCO_PROMPT.starts_with("You are LOGIC."));
    assert!(PSYCHE_DISCO_PROMPT.starts_with("You are PSYCHE."));
    assert!(INSTINCT_DISCO_PROMPT.starts_with("You are INSTINCT."));
}

#[test]
fn max_tokens_default() {
    assert_eq!(max_tokens_or_default(None), 2048);
    assert_eq!(max_tokens_or_default(None), DEFAULT_MAX_TOKENS);
    assert_eq!(max_tokens_or_default(Some(10)), 10);
    assert_eq!(max_tokens_or_default(Some(0)), 0);
}

#[test]
fn response_text_is_that_of_the_first_text_block() {
    let blocks = vec![
        block("tool_use", Some("ignored")),
        block("text", Some("Hello")),
        block("text", Some("again")),
    ];
    assert_eq!(first_text(&blocks), Some("Hello".to_string()));
    assert_eq!(completion_text(&blocks), Ok("Hello".to_string()));
}

#[test]
fn response_without_text_is_reported() {
    let none: Vec<ContentBlock> = Vec::new();
    assert_eq!(completion_text(&none), Err(CompletionFailure::NoTextContent));
    let only_tools = vec![block("tool_use", Some("x"))];
    assert_eq!(first_text(&only_tools), None);
    let empty_first = vec![block("text", None), block("text", Some("late"))];
    assert_eq!(first_text(&empty_first), None);
    assert_eq!(completion_text(&empty_first), Err(CompletionFailure::NoTextContent));
    assert_eq!(completion_text(&only_tools), Err(CompletionFailure::NoTextContent));
}

#[test]
fn refusal_is_worded_with_the_status() {
    let d = details();
    assert_eq!(
        completion_error_message("529 <unknown status code>", "{...}", Some(&d)),
        "Anthropic API error (529 <unknown status code>): overloaded_error - Overloaded"
    );
    assert_eq!(
        completion_error_message("500 Internal Server Error", "oops", None),
        "Anthropic API error (500 Internal Server Error): oops"
    );
}

#[test]
fn validation_failure_is_classified() {
    let d = details();
    assert_eq!(
        validation_error_message(401, "401 Unauthorized", "body", Some(&d)),
        "Invalid Anthropic API key"
    );
    assert_eq!(
        validation_error_message(429, "429 Too Many Requests", "body", None),
        "Rate limited - too many requests"
    );
    assert_eq!(
        validation_error_message(529, "529", "body", Some(&d)),
        "overloaded_error: Overloaded"
    );
    assert_eq!(
        validation_error_message(500, "500 Internal Server Error", "body", None),
        "Anthropic API error (500 Internal Server Error): body"
    );
}

#[test]
fn texts_are_ordered_bytewise() {
    assert!(comes_before("2024-01-01T00:00:00+00:00", "2024-01-01T00:00:01+00:00"));
    assert!(!comes_before("2024-01-01T00:00:01+00:00", "2024-01-01T00:00:00+00:00"));
    assert!(!comes_before("same", "same"));
    assert!(comes_before("", "a"));
    assert!(!comes_before("a", ""));
    assert!(comes_before("ab", "abc"));
    assert!(comes_before("Z", "a"));
    assert!(comes_before("z", "é"));
    assert!(precedes(&[1, 2], &[1, 3]));
    assert!(!precedes(&[2], &[1, 9]));
    assert!(!precedes(&[], &[]));
}

#[test]
fn texts_are_compared_exactly() {
    assert!(same_text("system", "system"));
    assert!(!same_text("system", "System"));
    assert!(!same_text("system", "system "));
    assert!(same_text("", ""));
    assert!(same_bytes(&[1, 2, 3], &[1, 2, 3]));
    assert!(!same_bytes(&[1, 2, 3], &[1, 2]));
    assert!(!same_bytes(&[1, 2, 3], &[1, 2, 4]));
}

#[test]
fn success_is_a_status_from_200_to_299() {
    assert!(status_is_success(200));
    assert!(status_is_success(204));
    assert!(status_is_success(299));
    assert!(!status_is_success(199));
    assert!(!status_is_success(300));
    assert!(!status_is_success(401));
    assert!(!status_is_success(0));
    assert!(!status_is_success(u16::MAX));
}

#[test]
fn key_is_valid_exactly_on_success() {
    let d = details();
    assert_eq!(validation_outcome(200, "200 OK", "{}", None), Ok(true));
    assert_eq!(validation_outcome(299, "299", "", Some(&d)), Ok(true));
    assert_eq!(
        validation_outcome(401, "401 Unauthorized", "{}", Some(&d)),
        Err("Invalid Anthropic API key".to_string())
    );
    assert_eq!(
        validation_outcome(429, "429 Too Many Requests", "", None),
        Err("Rate limited - too many requests".to_string())
    );
    assert_eq!(
        validation_outcome(300, "300 Multiple Choices", "", Some(&d)),
        Err("overloaded_error: Overloaded".to_string())
    );
    assert_eq!(
        validation_outcome(199, "199", "early", None),
        Err("Anthropic API error (199): early".to_string())
    );
}
