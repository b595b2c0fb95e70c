use mara_watch::{parse_personas, render_personas};

#[test]
fn test_parse_single_persona() {
    let content = "Alice:\nHello world\n";
    let result = parse_personas(content);
    assert_eq!(result.len(), 1);
    assert_eq!(result[0].0, "Alice");
    assert_eq!(result[0].1, "Hello world");
}

#[test]
fn test_parse_multiple_personas() {
    let content = "Alice:\nHello\n------\nBob:\nWorld\n";
    let result = parse_personas(content);
    assert_eq!(result.len(), 2);
    assert_eq!(result[0].0, "Alice");
    assert_eq!(result[0].1, "Hello");
    assert_eq!(result[1].0, "Bob");
    assert_eq!(result[1].1, "World");
}

#[test]
fn test_render_personas() {
    let personas = vec![
        ("Alice".to_string(), "Hello".to_string()),
        ("Bob".to_string(), "World".to_string()),
    ];
    let rendered = render_personas(&personas);
    assert_eq!(rendered, "Alice:\nHello\n------\nBob:\nWorld\n");
}

#[test]
fn persona_parser_test_round_trip() {
    let source = "Alice:\nHello world\n------\nBob:\nThis is a test\n";
    let personas = parse_personas(source);
    let rendered = render_personas(&personas);
    assert_eq!(rendered, source);
}

#[test]
fn test_multiline_text() {
    let content = "Alice:\nLine 1\nLine 2\n------\nBob:\nAnother text\n";
    let result = parse_personas(content);
    assert_eq!(result.len(), 2);
    assert_eq!(result[0].1, "Line 1\nLine 2");
    assert_eq!(result[1].1, "Another text");
}

#[test]
fn personas_text_without_persona_is_ignored() {
    let result = parse_personas("just text\nAlice:\nhi\n");
    assert_eq!(result.len(), 1);
    assert_eq!(result[0].0, "Alice");
    assert_eq!(render_personas(&[]), "\n");
}
