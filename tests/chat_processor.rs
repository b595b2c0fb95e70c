use mara_watch::Chat;

#[test]
fn test_parse_single_message() {
    let content = "Alice:\nHello world\n------\n";
    let chat = Chat::parse(content);
    assert_eq!(chat.messages.len(), 1);
    assert_eq!(chat.messages[0].persona, "Alice");
    assert_eq!(chat.messages[0].content, "Hello world");
}

#[test]
fn test_user_message() {
    let content = "hallo";
    let chat = Chat::parse(content);
    assert_eq!(chat.messages.len(), 1);
    assert_eq!(chat.messages[0].persona, "User");
    assert_eq!(chat.messages[0].content, "hallo");
}

#[test]
fn test_parse_user_antwort_message() {
    let content = "Alice:\nHello world\n------\nhallo";
    let chat = Chat::parse(content);
    assert_eq!(chat.messages.len(), 2);
    assert_eq!(chat.messages[0].persona, "Alice");
    assert_eq!(chat.messages[0].content, "Hello world");
    assert_eq!(chat.messages[1].persona, "User");
    assert_eq!(chat.messages[1].content, "hallo");
}

#[test]
fn test_parse_multiple_messages() {
    let content = "Alice:\nHello\n------\nBob:\nWorld\n------\n";
    let chat = Chat::parse(content);
    assert_eq!(chat.messages.len(), 2);
    assert_eq!(chat.messages[0].persona, "Alice");
    assert_eq!(chat.messages[0].content, "Hello");
    assert_eq!(chat.messages[1].persona, "Bob");
    assert_eq!(chat.messages[1].content, "World");
}

#[test]
fn test_render_messages() {
    let mut chat = Chat::new();
    chat.add_message("Alice".to_string(), "Hello".to_string());
    chat.add_message("Bob".to_string(), "World".to_string());
    let rendered = chat.render();
    assert_eq!(rendered, "Alice:\nHello\n------\nBob:\nWorld\n------\n");
}

#[test]
fn chat_processor_test_round_trip() {
    let source = "Alice:\nHello world\n------\nBob:\nThis is a test\n------\n";
    let chat = Chat::parse(source);
    let rendered = chat.render();
    assert_eq!(rendered, source);
}

#[test]
fn test_multiline_content() {
    let content = "Alice:\nLine 1\nLine 2\n------\nBob:\nAnother text\n------\n";
    let chat = Chat::parse(content);
    assert_eq!(chat.messages.len(), 2);
    assert_eq!(chat.messages[0].content, "Line 1\nLine 2");
    assert_eq!(chat.messages[1].content, "Another text");
}

#[test]
fn test_add_message() {
    let mut chat = Chat::new();
    chat.add_message("Alice".to_string(), "Hello".to_string());
    chat.add_message("mara".to_string(), "das ist interessant".to_string());
    assert_eq!(chat.messages.len(), 2);
    assert_eq!(chat.messages[1].persona, "mara");
}

#[test]
fn chat_user_lines_are_trimmed_and_colons_stripped() {
    let chat = Chat::parse("  first  \n  second\n------\nBob::\n  hi  \n");
    assert_eq!(chat.messages.len(), 2);
    assert_eq!(chat.messages[0].persona, "User");
    assert_eq!(chat.messages[0].content, "first\nsecond");
    assert_eq!(chat.messages[1].persona, "Bob");
    assert_eq!(chat.messages[1].content, "hi");
}

#[test]
fn chat_empty_message_is_dropped() {
    let chat = Chat::parse("Alice:\n\n------\n");
    assert_eq!(chat.messages.len(), 0);
    assert_eq!(chat.render(), "");
}
