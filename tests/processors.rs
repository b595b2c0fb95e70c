use mara_watch::{
    create_chat_processor, create_command_processor, create_doku_processor, create_persona_parser,
    create_todo_processor, EventKind, FileEvent, OpenAIClient, TransformStep,
};

fn written(step: TransformStep) -> String {
    match step {
        TransformStep::Write(b) => String::from_utf8(b).unwrap(),
        _ => panic!("expected bytes to write"),
    }
}

#[test]
fn chat_processor_adds_a_reply() {
    let p = create_chat_processor();
    let e = FileEvent::new("/w/talk.chat".to_string(), EventKind::Modify);
    assert!(p.filter(&e));
    assert_eq!(p.target(&e), Some("/w/talk.chat".to_string()));
    let out = written(p.transform(&e, &b"hallo".to_vec()));
    assert_eq!(out, "User:\nhallo\n------\nmara:\ndas ist interessant\n------\n");
}

#[test]
fn invalid_bytes_are_replaced() {
    let p = create_persona_parser();
    let e = FileEvent::new("/w/p.txt".to_string(), EventKind::Modify);
    let out = written(p.transform(&e, &vec![b'A', b':', b'\n', 0xff, b'x']));
    assert_eq!(out, "A:\n\u{FFFD}x\n");
}

#[test]
fn todo_processor_rewrites_in_place() {
    let p = create_todo_processor();
    let e = FileEvent::new("/w/l.todo".to_string(), EventKind::Modify);
    let out = written(p.transform(&e, &b"Neues Todo:\nneu\nTodos:\n[x] alt\n".to_vec()));
    assert_eq!(out, "Neues Todo:\n\nTodos:\n[] neu\n-----------------\n[x] alt\n");
}

#[test]
fn command_and_index_processors_ask_for_work() {
    let p = create_command_processor();
    let e = FileEvent::new("/w/x.command".to_string(), EventKind::Modify);
    match p.transform(&e, &b"ls\n------\n\n-----\n".to_vec()) {
        TransformStep::RunCommands(log) => assert_eq!(log.pending_commands(), vec![0]),
        _ => panic!("expected commands to run"),
    }
    let d = create_doku_processor();
    let e = FileEvent::new("/w/docs/a.md".to_string(), EventKind::Modify);
    assert!(d.filter(&e));
    assert_eq!(d.target(&e), Some("/w/docs/index.doku".to_string()));
    match d.transform(&e, &Vec::new()) {
        TransformStep::IndexDirectory(dir) => assert_eq!(dir, "/w/docs"),
        _ => panic!("expected a directory to index"),
    }
    let top = FileEvent::new("a.md".to_string(), EventKind::Modify);
    assert_eq!(d.target(&top), Some("index.doku".to_string()));
}

#[test]
fn client_settings_and_replies() {
    assert_eq!(
        OpenAIClient::from_settings(None, None).err(),
        Some("OPENAI_API_KEY not found in .env".to_string())
    );
    let c = OpenAIClient::from_settings(Some("k".to_string()), None).ok().unwrap();
    assert_eq!(c.model(), "gpt-4");
    assert_eq!(c.authorization(), "Bearer k");
    let msgs = OpenAIClient::chat_messages(&vec![
        ("User".to_string(), "hi".to_string()),
        ("mara".to_string(), "yo".to_string()),
    ]);
    assert_eq!(msgs[0].0, "user");
    assert_eq!(msgs[1].0, "assistant");
    assert_eq!(
        OpenAIClient::reply_from(Some("bad".to_string()), None, None, "400"),
        Err("OpenAI API error: bad".to_string())
    );
    assert_eq!(
        OpenAIClient::reply_from(None, None, Some("t".to_string()), "200 OK"),
        Ok("t".to_string())
    );
    assert_eq!(
        OpenAIClient::reply_from(None, None, None, "200 OK"),
        Err("No response content from OpenAI. Status: 200 OK".to_string())
    );
}

#[test]
fn empty_texts_give_empty_results() {
    assert_eq!(mara_watch::Chat::parse("").messages.len(), 0);
    assert_eq!(mara_watch::CommandLog::parse("").entries.len(), 0);
    assert_eq!(mara_watch::TodoLog::parse("").entries.len(), 0);
    assert_eq!(mara_watch::DokuIndex::parse("").entries.len(), 0);
    assert_eq!(mara_watch::parse_personas("").len(), 0);
    assert_eq!(mara_watch::DokuIndex::create_summary(""), "[No content]");
}

#[test]
fn crlf_line_ends_are_read_as_line_ends() {
    let chat = mara_watch::Chat::parse("Alice:\r\nHi\r\n------\r\n");
    assert_eq!(chat.messages.len(), 1);
    assert_eq!(chat.messages[0].persona, "Alice");
    assert_eq!(chat.messages[0].content, "Hi");
}
