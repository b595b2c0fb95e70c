use mara_watch::{CommandEntry, CommandLog};

#[test]
fn test_parse_single_command() {
    let content = "echo hello\n------\nhello\n-----\n";
    let log = CommandLog::parse(content);
    assert_eq!(log.entries.len(), 1);
    assert_eq!(log.entries[0].command, "echo hello");
    assert_eq!(log.entries[0].result, Some("hello".to_string()));
}

#[test]
fn test_parse_multiple_commands() {
    let content = "echo hello\n------\nhello\n-----\necho world\n------\nworld\n-----\n";
    let log = CommandLog::parse(content);
    assert_eq!(log.entries.len(), 2);
    assert_eq!(log.entries[0].command, "echo hello");
    assert_eq!(log.entries[0].result, Some("hello".to_string()));
    assert_eq!(log.entries[1].command, "echo world");
    assert_eq!(log.entries[1].result, Some("world".to_string()));
}

#[test]
fn test_parse_command_without_result() {
    let content = "echo hello\n------\n\n-----\n";
    let log = CommandLog::parse(content);
    assert_eq!(log.entries.len(), 1);
    assert_eq!(log.entries[0].command, "echo hello");
    assert_eq!(log.entries[0].result, Some("".to_string()));
}

#[test]
fn test_render_commands() {
    let mut log = CommandLog::new();
    log.add_entry(CommandEntry::with_result("echo hello".to_string(), "hello".to_string()));
    log.add_entry(CommandEntry::with_result("echo world".to_string(), "world".to_string()));
    let rendered = log.render();
    assert_eq!(rendered, "echo hello\n------\nhello\n-----\necho world\n------\nworld\n-----\n");
}

#[test]
fn command_processor_test_round_trip() {
    let source = "ls\n------\nfile1.txt\nfile2.txt\n-----\n";
    let log = CommandLog::parse(source);
    let rendered = log.render();
    assert_eq!(rendered, source);
}

#[test]
fn test_multiline_result() {
    let content = "ls\n------\nfile1.txt\nfile2.txt\nfile3.txt\n-----\n";
    let log = CommandLog::parse(content);
    assert_eq!(log.entries.len(), 1);
    assert_eq!(log.entries[0].command, "ls");
    assert_eq!(log.entries[0].result, Some("file1.txt\nfile2.txt\nfile3.txt".to_string()));
}

#[test]
fn command_processor_test_add_entry() {
    let mut log = CommandLog::new();
    log.add_entry(CommandEntry::new("echo test".to_string()));
    assert_eq!(log.entries.len(), 1);
    assert_eq!(log.entries[0].command, "echo test");
    assert_eq!(log.entries[0].result, None);
}

#[test]
fn pending_commands_are_those_without_output() {
    let mut log = CommandLog::parse("echo a\n------\n\n-----\necho b\n------\nb\n-----\n");
    log.add_entry(CommandEntry::new("echo c".to_string()));
    assert_eq!(log.pending_commands(), vec![0, 2]);
    log.set_result(0, "a".to_string());
    assert_eq!(log.entries[0].result, Some("a".to_string()));
    assert_eq!(log.pending_commands(), vec![2]);
    assert_eq!(log.render(), "echo a\n------\na\n-----\necho b\n------\nb\n-----\necho c\n------\n\n-----\n");
}
