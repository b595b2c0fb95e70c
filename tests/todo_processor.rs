use mara_watch::{TodoEntry, TodoLog};

#[test]
fn test_parse_single_existing_todo() {
    let content = "Neues Todo:\n\nTodos:\n[] Rasen mähen\n";
    let log = TodoLog::parse(content);
    assert_eq!(log.entries.len(), 1);
    assert_eq!(log.entries[0].text, "Rasen mähen");
    assert_eq!(log.entries[0].completed, false);
}

#[test]
fn test_parse_multiple_existing_todos() {
    let content = "Neues Todo:\n\nTodos:\n[] Rasen mähen\n[] Pflanzen gießen\n";
    let log = TodoLog::parse(content);
    assert_eq!(log.entries.len(), 2);
    assert_eq!(log.entries[0].text, "Rasen mähen");
    assert_eq!(log.entries[1].text, "Pflanzen gießen");
}

#[test]
fn test_parse_new_todo_input() {
    let content = "Neues Todo:\nNeues Item hinzufügen\n\nTodos:\n[] Rasen mähen\n";
    let log = TodoLog::parse(content);
    assert_eq!(log.entries.len(), 2);
    assert_eq!(log.entries[0].text, "Neues Item hinzufügen");
    assert_eq!(log.entries[0].completed, false);
    assert_eq!(log.entries[1].text, "Rasen mähen");
    assert_eq!(log.entries[1].completed, false);
}

#[test]
fn test_parse_completed_todo() {
    let content = "Neues Todo:\n\nTodos:\n-----------------\n[x] Müll runter bringen\n";
    let log = TodoLog::parse(content);
    assert_eq!(log.entries.len(), 1);
    assert_eq!(log.entries[0].text, "Müll runter bringen");
    assert_eq!(log.entries[0].completed, true);
}

#[test]
fn test_parse_mixed_todos() {
    let content = "Neues Todo:\n\nTodos:\n[] Rasen mähen\n[] Pflanzen gießen\n-----------------\n[x] Müll runter bringen\n";
    let log = TodoLog::parse(content);
    assert_eq!(log.entries.len(), 3);
    assert_eq!(log.entries[0].text, "Rasen mähen");
    assert_eq!(log.entries[0].completed, false);
    assert_eq!(log.entries[1].text, "Pflanzen gießen");
    assert_eq!(log.entries[1].completed, false);
    assert_eq!(log.entries[2].text, "Müll runter bringen");
    assert_eq!(log.entries[2].completed, true);
}

#[test]
fn test_render_todos() {
    let mut log = TodoLog::new();
    log.add_entry(TodoEntry::new("Rasen mähen".to_string()));
    log.add_entry(TodoEntry::new("Pflanzen gießen".to_string()));
    let rendered = log.render();
    assert!(rendered.contains("[] Rasen mähen"));
    assert!(rendered.contains("[] Pflanzen gießen"));
}

#[test]
fn test_render_with_completed() {
    let mut log = TodoLog::new();
    log.add_entry(TodoEntry::new("Rasen mähen".to_string()));
    log.add_entry(TodoEntry::with_status("Müll runter bringen".to_string(), true));
    let rendered = log.render();
    assert!(rendered.contains("[] Rasen mähen"));
    assert!(rendered.contains("-----------------"));
    assert!(rendered.contains("[x] Müll runter bringen"));
}

#[test]
fn todo_processor_test_round_trip() {
    let source = "Neues Todo:\n\nTodos:\n[] Rasen mähen\n[] Pflanzen gießen\n-----------------\n[x] Müll runter bringen\n";
    let log = TodoLog::parse(source);
    let rendered = log.render();
    assert_eq!(rendered, source);
}

#[test]
fn todo_processor_test_add_entry() {
    let mut log = TodoLog::new();
    log.add_entry(TodoEntry::new("Test todo".to_string()));
    assert_eq!(log.entries.len(), 1);
    assert_eq!(log.entries[0].text, "Test todo");
    assert_eq!(log.entries[0].completed, false);
}

#[test]
fn todo_render_sorts_done_items_last() {
    let mut log = TodoLog::new();
    log.add_entry(TodoEntry::with_status("done".to_string(), true));
    log.add_entry(TodoEntry::new("open".to_string()));
    assert_eq!(log.render(), "Neues Todo:\n\nTodos:\n[] open\n-----------------\n[X] done\n".replace("[X]", "[x]"));
    let empty = TodoLog::new();
    assert_eq!(empty.render(), "Neues Todo:\n\nTodos:\n");
}

#[test]
fn todo_upper_case_box_counts_as_done() {
    let log = TodoLog::parse("Todos:\n[X] a\n[ ] b\n");
    assert_eq!(log.entries.len(), 2);
    assert_eq!(log.entries[0].completed, true);
    assert_eq!(log.entries[1].completed, false);
    assert_eq!(log.entries[1].text, "b");
}
