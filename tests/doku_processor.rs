use mara_watch::{DokuEntry, DokuIndex};

#[test]
fn test_create_summary_simple() {
    let content = "# Title\n\nThis is a test file with some content that should be summarized.";
    let summary = DokuIndex::create_summary(content);
    assert!(summary.contains("test file"));
    assert!(!summary.contains("#"));
}

#[test]
fn test_create_summary_with_formatting() {
    let content = "# Title\n\nThis is **bold** and _italic_ text with `code`.";
    let summary = DokuIndex::create_summary(content);
    assert!(summary.contains("bold"));
    assert!(!summary.contains("**"));
    assert!(!summary.contains("_"));
}

#[test]
fn test_create_summary_truncate() {
    let long_content = "# Title\n\n".to_string() + &"word ".repeat(100);
    let summary = DokuIndex::create_summary(&long_content);
    assert!(summary.len() <= 305);
    assert!(summary.ends_with("..."));
}

#[test]
fn test_doku_entry_creation() {
    let entry = DokuEntry::new(
        "test.md".to_string(),
        "Test summary".to_string(),
        "2025-01-19 10:30:00".to_string(),
    );
    assert_eq!(entry.path, "test.md");
    assert_eq!(entry.summary, "Test summary");
}

#[test]
fn test_doku_index_add_entry() {
    let mut index = DokuIndex::new();
    let entry = DokuEntry::new(
        "test.md".to_string(),
        "Summary".to_string(),
        "2025-01-19 10:30:00".to_string(),
    );
    index.add_entry(entry.clone());
    assert_eq!(index.entries.len(), 1);
    assert_eq!(index.entries[0], entry);
}

#[test]
fn test_doku_index_render() {
    let mut index = DokuIndex::new();
    index.add_entry(DokuEntry::new(
        "test.md".to_string(),
        "Test summary".to_string(),
        "2025-01-19 10:30:00".to_string(),
    ));

    let rendered = index.render();
    assert!(rendered.contains("# Documentation Index"));
    assert!(rendered.contains("## File: test.md"));
    assert!(rendered.contains("**Path:** test.md"));
    assert!(rendered.contains("Test summary"));
    assert!(rendered.contains("Total Files: 1"));
}

#[test]
fn test_parse_single_entry() {
    let content = r#"# Documentation Index

## File: test.md
**Path:** test.md
**Last Updated:** 2025-01-19 10:30:00
**Summary:**
This is a test summary of the documentation.

---

Last Updated: 2025-01-19 10:30:00
Total Files: 1
"#;

    let index = DokuIndex::parse(content);
    assert_eq!(index.entries.len(), 1);
    assert_eq!(index.entries[0].path, "test.md");
    assert!(index.entries[0].summary.contains("test summary"));
}

#[test]
fn test_parse_multiple_entries() {
    let content = r#"# Documentation Index

## File: file1.md
**Path:** file1.md
**Last Updated:** 2025-01-19 10:30:00
**Summary:**
First file summary

---

## File: file2.md
**Path:** file2.md
**Last Updated:** 2025-01-19 10:30:00
**Summary:**
Second file summary

---

Last Updated: 2025-01-19 10:30:00
Total Files: 2
"#;

    let index = DokuIndex::parse(content);
    assert_eq!(index.entries.len(), 2);
    assert_eq!(index.entries[0].path, "file1.md");
    assert_eq!(index.entries[1].path, "file2.md");
}

#[test]
fn doku_processor_test_round_trip() {
    let mut index = DokuIndex::new();
    index.add_entry(DokuEntry::new(
        "docs/api.md".to_string(),
        "API documentation for the system.".to_string(),
        "2025-01-19 10:30:00".to_string(),
    ));
    index.add_entry(DokuEntry::new(
        "docs/setup.md".to_string(),
        "Setup instructions for installation.".to_string(),
        "2025-01-19 10:30:00".to_string(),
    ));

    let rendered = index.render();
    let parsed = DokuIndex::parse(&rendered);

    assert_eq!(parsed.entries.len(), 2);
    assert_eq!(parsed.entries[0].path, "docs/api.md");
    assert_eq!(parsed.entries[1].path, "docs/setup.md");
}

#[test]
fn summary_of_empty_text() {
    assert_eq!(DokuIndex::create_summary("# only a title\n\n---\n"), "[No content]");
    assert_eq!(DokuIndex::create_summary("a [link] b\nsecond"), "a link b second");
}

#[test]
fn summary_is_cut_at_the_limit() {
    let text = "x".repeat(310);
    let s = DokuIndex::create_summary(&text);
    assert_eq!(s, "x".repeat(300) + "...");
}

#[test]
fn render_at_gives_the_exact_text() {
    let mut index = DokuIndex::new();
    index.add_entry(DokuEntry::new("a.md".to_string(), "S".to_string(), "T".to_string()));
    // 2024-02-29 12:34:56 UTC
    let text = index.render_at(1709210096);
    assert_eq!(
        text,
        "# Documentation Index\n\n## File: a.md\n**Path:** a.md\n**Last Updated:** T\n**Summary:**\nS\n\n---\n\nLast Updated: 2024-02-29 12:34:56\nTotal Files: 1\n"
    );
}

#[test]
fn index_is_sorted_and_relative() {
    let files = vec![
        ("/d/z.md".to_string(), "Zed".to_string()),
        ("/d/sub/a.md".to_string(), "# T\nAlpha".to_string()),
        ("/other/b.md".to_string(), "".to_string()),
    ];
    let index = DokuIndex::from_files("/d", &files, "S");
    let paths: Vec<&str> = index.entries.iter().map(|e| e.path.as_str()).collect();
    assert_eq!(paths, vec!["/other/b.md", "sub/a.md", "z.md"]);
    assert_eq!(index.entries[1].summary, "Alpha");
    assert_eq!(index.entries[0].summary, "[No content]");
    assert!(DokuIndex::index_file_bytes("/d", &Vec::new(), 0).is_empty());
    let bytes = DokuIndex::index_file_bytes("/d", &files, 0);
    let text = String::from_utf8(bytes).unwrap();
    assert!(text.ends_with("Last Updated: 1970-01-01 00:00:00\nTotal Files: 3\n"));
}
