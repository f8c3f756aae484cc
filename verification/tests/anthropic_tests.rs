use intersect::anthropic::convert_messages;
use intersect::openai::ChatMessage;

fn chat(role: &str, content: &str) -> ChatMessage {
    ChatMessage { role: role.to_string(), content: content.to_string() }
}

#[test]
fn test_convert_messages() {
    let messages = vec![
        ChatMessage { role: "system".to_string(), content: "You are helpful.".to_string() },
        ChatMessage { role: "user".to_string(), content: "Hello".to_string() },
    ];

    let (system, msgs) = convert_messages(messages);

    assert_eq!(system, Some("You are helpful.".to_string()));
    assert_eq!(msgs.len(), 1);
    assert_eq!(msgs[0].role, "user");
    assert_eq!(msgs[0].content, "Hello");
}

#[test]
fn convert_messages_joins_system_messages_with_a_blank_line() {
    let (system, msgs) = convert_messages(vec![
        chat("system", "First."),
        chat("user", "Hi"),
        chat("system", "Second."),
        chat("assistant", "Hello"),
        chat("system", "Third."),
    ]);
    assert_eq!(system, Some("First.\n\nSecond.\n\nThird.".to_string()));
    assert_eq!(msgs.len(), 2);
    assert_eq!(msgs[0].role, "user");
    assert_eq!(msgs[0].content, "Hi");
    assert_eq!(msgs[1].role, "assistant");
    assert_eq!(msgs[1].content, "Hello");
}

#[test]
fn convert_messages_without_system_message_has_no_prompt() {
    let (system, msgs) = convert_messages(vec![chat("user", "a"), chat("assistant", "b")]);
    assert_eq!(system, None);
    assert_eq!(msgs.len(), 2);
}

#[test]
fn convert_messages_of_nothing_is_empty() {
    let (system, msgs) = convert_messages(Vec::new());
    assert_eq!(system, None);
    assert!(msgs.is_empty());
}

#[test]
fn convert_messages_matches_the_system_role_exactly() {
    let (system, msgs) = convert_messages(vec![chat("System", "x"), chat("system ", "y")]);
    assert_eq!(system, None);
    assert_eq!(msgs.len(), 2);
    assert_eq!(msgs[0].role, "System");
}
