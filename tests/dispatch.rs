use mara_watch::{
    create_sync_a_to_b, create_sync_a_to_c, EventKind, EventOrigin, FileEvent, Manager,
    OriginTracker, RawKind, SyncProcess, SyncRule, TransformStep,
};

fn internal_name(o: &EventOrigin) -> Option<String> {
    match o {
        EventOrigin::External => None,
        EventOrigin::Internal { process_name } => Some(process_name.clone()),
    }
}

#[test]
fn origin_round_trip() {
    let mut t = OriginTracker::new(None);
    t.record_pending_write("/w/b/x.txt", "P");
    assert_eq!(internal_name(&t.classify_and_consume("/w/b/x.txt")), Some("P".to_string()));
    assert_eq!(internal_name(&t.classify_and_consume("/w/b/x.txt")), None);
    assert_eq!(t.len(), 0);
}

#[test]
fn fifo_mapping_consumption() {
    let mut t = OriginTracker::new(None);
    t.record_pending_write("/p", "N1");
    t.record_pending_write("/q", "Other");
    t.record_pending_write("/p", "N2");
    assert_eq!(internal_name(&t.classify_and_consume("/p")), Some("N1".to_string()));
    assert_eq!(internal_name(&t.classify_and_consume("/p")), Some("N2".to_string()));
    assert_eq!(internal_name(&t.classify_and_consume("/p")), None);
    assert_eq!(t.len(), 1);
}

#[test]
fn relative_notes_match_absolute_notifications() {
    let mut t = OriginTracker::new(Some("/work".to_string()));
    t.record_pending_write("_mara/b/x.txt", "P");
    assert_eq!(t.normalize("_mara/b/x.txt"), "/work/_mara/b/x.txt");
    assert_eq!(internal_name(&t.classify_and_consume("/work/_mara/b/x.txt")), Some("P".to_string()));
    let t2 = OriginTracker::new(Some("/work/".to_string()));
    assert_eq!(t2.normalize("a"), "/work/a");
    assert_eq!(t2.normalize("/abs"), "/abs");
}

#[test]
fn idempotent_mirroring_scenario() {
    let p = SyncProcess::new(
        "A→B",
        SyncRule::Mirror {
            source_root: "/r/A".to_string(),
            target_root: "/r/B".to_string(),
            suffix: ".txt".to_string(),
        },
    );
    let mut m = Manager::new().register_process(p).watch_path("/r");
    let d = m.handle_notification("/r/A/note.txt", RawKind::Create).unwrap();
    assert_eq!(d.event.event_kind, EventKind::Create);
    assert_eq!(internal_name(&d.event.origin), None);
    assert_eq!(d.actions.len(), 1);
    assert_eq!(d.actions[0].process, 0);
    assert_eq!(d.actions[0].target, "/r/B/note.txt");
    // the mapping is in place before the write is made
    assert_eq!(m.pending_count(), 1);
    match m.transform(&d.actions[0], &d.event, &b"hi".to_vec()) {
        TransformStep::Write(bytes) => assert_eq!(bytes, b"hi".to_vec()),
        _ => panic!("a mirror writes bytes"),
    }
    let echo = m.handle_notification("/r/B/note.txt", RawKind::Create).unwrap();
    assert_eq!(internal_name(&echo.event.origin), Some("A→B".to_string()));
    assert_eq!(echo.actions.len(), 0);
    assert_eq!(m.pending_count(), 0);
}

#[test]
fn bidirectional_loop_scenario() {
    let p = SyncProcess::new(
        "A↔C",
        SyncRule::Bidirectional { left_root: "/r/A".to_string(), right_root: "/r/C".to_string() },
    );
    let mut m = Manager::new().register_process(p);
    let d = m.handle_notification("/r/A/x.txt", RawKind::Create).unwrap();
    assert_eq!(d.actions.len(), 1);
    assert_eq!(d.actions[0].target, "/r/C/x.txt");
    let echo = m.handle_notification("/r/C/x.txt", RawKind::Create).unwrap();
    assert_eq!(internal_name(&echo.event.origin), Some("A↔C".to_string()));
    assert_eq!(echo.actions.len(), 0);
    assert_eq!(m.pending_count(), 0);
    // a later edit from outside goes across again
    let again = m.handle_notification("/r/C/x.txt", RawKind::Modify).unwrap();
    assert_eq!(internal_name(&again.event.origin), None);
    assert_eq!(again.actions[0].target, "/r/A/x.txt");
}

#[test]
fn every_applicable_process_gets_an_action() {
    let mut m = Manager::new()
        .with_base_dir("/w".to_string())
        .register_process(create_sync_a_to_b())
        .register_process(create_sync_a_to_c());
    let d = m.handle_notification("/w/_mara/a/n.txt", RawKind::Modify).unwrap();
    assert_eq!(d.actions.len(), 2);
    assert_eq!(d.actions[0].target, "_mara/b/n.txt");
    assert_eq!(d.actions[1].target, "_mara/c/n.txt");
    let e1 = m.handle_notification("/w/_mara/b/n.txt", RawKind::Modify).unwrap();
    assert_eq!(internal_name(&e1.event.origin), Some("A->B (txt files)".to_string()));
    let e2 = m.handle_notification("/w/_mara/c/n.txt", RawKind::Modify).unwrap();
    assert_eq!(internal_name(&e2.event.origin), Some("A<->C (bidirectional)".to_string()));
    assert_eq!(e2.actions.len(), 0);
}

#[test]
fn other_kinds_are_dropped_and_removals_planned() {
    let mut m = Manager::new().register_process(create_sync_a_to_c());
    assert!(m.handle_notification("/x/_mara/a/f", RawKind::Other).is_none());
    assert_eq!(m.pending_count(), 0);
    let d = m.handle_notification("/x/_mara/a/f", RawKind::Remove).unwrap();
    assert_eq!(d.event.event_kind, EventKind::Delete);
    assert_eq!(d.actions[0].target, "_mara/c/f");
    assert_eq!(m.pending_count(), 1);
}

#[test]
fn roots_match_whole_components() {
    let p = create_sync_a_to_b();
    let e = FileEvent::new("/w/x_mara/a/n.txt".to_string(), EventKind::Create);
    assert!(!p.filter(&e));
    let e = FileEvent::new("/w/_mara/ab/n.txt".to_string(), EventKind::Create);
    assert!(!p.filter(&e));
    let e = FileEvent::new("/w/_mara/a/n.md".to_string(), EventKind::Create);
    assert!(!p.filter(&e));
    let e = FileEvent::new("/w/_mara/a/n.txt".to_string(), EventKind::Create);
    assert!(p.filter(&e));
    let own = FileEvent::from_process("/w/_mara/a/n.txt".to_string(), EventKind::Create, "A->B (txt files)");
    assert!(!p.filter(&own));
}

#[test]
fn startup_problems() {
    let m = Manager::new();
    assert_eq!(m.startup_problem(), Some("No paths to watch!".to_string()));
    let m = m.watch_path("/x");
    assert_eq!(m.startup_problem(), Some("No sync processes registered!".to_string()));
    let m = m.register_process(create_sync_a_to_b());
    assert_eq!(m.startup_problem(), None);
}

#[test]
fn audit_line_of_an_event() {
    let e = FileEvent::new("/a/b".to_string(), EventKind::Modify);
    assert_eq!(e.describe(), "EVENT MODIFY [EXT] | /a/b");
    let e = e.with_origin(EventOrigin::Internal { process_name: "P".to_string() });
    assert_eq!(e.describe(), "EVENT MODIFY [INT:P] | /a/b");
    let e = FileEvent::new_with_origin("/c".to_string(), EventKind::Delete, EventOrigin::External);
    assert_eq!(e.describe(), "EVENT DELETE [EXT] | /c");
}
