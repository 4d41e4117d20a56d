use rem::{complete_task, delete_outcome, line_text, CompletionError, DeleteError, DisplayLine, Emphasis, Label, Reminder, Task};

fn task(completed: Option<i64>) -> Task {
    Task {
        id: 7,
        title: "Test".to_string(),
        description: Some("adding task".to_string()),
        generated_by: None,
        created: 100,
        start: Some(200),
        due: Some(300),
        completed,
        work_bits: vec![(250, Some("half".to_string())), (260, None)],
    }
}

fn texts(lines: &[DisplayLine]) -> Vec<String> {
    lines.iter().map(|l| line_text(l, "STAMP")).collect()
}

#[test]
fn test_show_tasks() {
    let t = Task {
        id: 1,
        title: "Test".to_string(),
        description: None,
        generated_by: None,
        created: 0,
        start: None,
        due: None,
        completed: None,
        work_bits: Vec::new(),
    };
    let shown = t.display(false, true, 10);
    assert_eq!(texts(&shown.lines), vec!["- [ ] (1) Test", "  created:   STAMP"]);
    assert!(shown.to_text().unwrap().starts_with("- [ ] (1) Test\n  created:   "));
}

#[test]
fn verbose_task_lines_in_order() {
    let t = task(None);
    let shown = t.display(false, true, 250);
    assert_eq!(
        texts(&shown.lines),
        vec![
            "- [ ] (7) Test",
            "  created:   STAMP",
            "  start:     STAMP",
            "  due:       STAMP",
            "  adding task",
            "  work bits:",
            "  - STAMP: half",
            "  - STAMP",
        ]
    );
    match &shown.lines[3] {
        DisplayLine::Stamp { label, at, emphasis } => {
            assert_eq!((*label, *at, *emphasis), (Label::Due, 300, Emphasis::Plain));
        }
        _ => panic!("expected the due line"),
    }
}

#[test]
fn completed_task_hidden_unless_all() {
    let t = task(Some(400));
    assert!(t.display(false, true, 500).lines.is_empty());
    assert!(t.display(false, false, 500).lines.is_empty());
    let shown = t.display(true, true, 500);
    assert_eq!(texts(&shown.lines)[0], "- [x] (7) Test");
    assert_eq!(texts(&shown.lines)[1], "  completed: STAMP");
    match &shown.lines[0] {
        DisplayLine::Heading { emphasis, done, .. } => assert_eq!((*emphasis, *done), (Emphasis::Done, true)),
        _ => panic!("expected the heading"),
    }
}

#[test]
fn heading_emphasis() {
    let heading = |t: &Task, now: i64| match &t.display(true, false, now).lines[0] {
        DisplayLine::Heading { emphasis, .. } => *emphasis,
        _ => panic!("expected the heading"),
    };
    let mut t = task(None);
    assert_eq!(heading(&t, 301), Emphasis::Overdue);
    assert_eq!(heading(&t, 300), Emphasis::Plain);
    t.due = None;
    assert_eq!(heading(&t, 201), Emphasis::Started);
    assert_eq!(heading(&t, 200), Emphasis::Plain);
    assert_eq!(t.display(true, false, 201).lines.len(), 1);
}

#[test]
fn due_line_emphasised_once_passed() {
    let due_emphasis = |t: &Task, now: i64| match &t.display(true, true, now).lines[3] {
        DisplayLine::Stamp { emphasis, .. } => *emphasis,
        _ => panic!("expected the due line"),
    };
    let t = task(None);
    assert_eq!(due_emphasis(&t, 300), Emphasis::Plain);
    assert_eq!(due_emphasis(&t, 301), Emphasis::Overdue);
    let done = task(Some(250));
    match &done.display(true, true, 301).lines[4] {
        DisplayLine::Stamp { label, emphasis, .. } => assert_eq!((*label, *emphasis), (Label::Due, Emphasis::Plain)),
        _ => panic!("expected the due line"),
    }
}

#[test]
fn plain_listings_always_render() {
    let t = task(Some(400));
    assert_eq!(t.display(true, false, 0).to_text(), Some("- [x] (7) Test\n".to_string()));
    let far = Task { due: Some(i64::MAX), ..task(None) };
    assert_eq!(far.display(false, false, 0).to_text(), Some("- [ ] (7) Test\n".to_string()));
    assert_eq!(far.display(false, true, 0).to_text(), None);
}

#[test]
fn reminder_listing() {
    let r = Reminder {
        id: 12,
        title: "water plants".to_string(),
        description: None,
        created: 0,
        first_due: 1000,
        period: 86400,
        until: Some(5000),
    };
    assert!(r.display(false, false, 5000).lines.is_empty());
    assert_eq!(texts(&r.display(false, false, 4999).lines), vec!["- [ ] (12) water plants"]);
    let all = r.display(true, false, 5000);
    assert_eq!(texts(&all.lines), vec!["- [x] (12) water plants"]);
    match &all.lines[0] {
        DisplayLine::Heading { emphasis, .. } => assert_eq!(*emphasis, Emphasis::Done),
        _ => panic!("expected the heading"),
    }
    let verbose = r.display(true, true, 2000);
    assert_eq!(
        texts(&verbose.lines),
        vec![
            "- [ ] (12) water plants",
            "  created:   STAMP",
            "  first due: STAMP",
            "  until:     STAMP",
            "  next due:  STAMP",
        ]
    );
    match &verbose.lines[4] {
        DisplayLine::Stamp { at, .. } => assert_eq!(*at, 1000 + 86400),
        _ => panic!("expected the next due line"),
    }
}

#[test]
fn completing_twice_conflicts() {
    let mut t = task(None);
    assert_eq!(t.complete(1000), Ok(()));
    assert_eq!(t.completed, Some(1000));
    assert_eq!(t.complete(2000), Err(CompletionError::AlreadyCompleted { at: 1000 }));
    assert_eq!(t.completed, Some(1000));
    assert_eq!(complete_task(None, 5), Ok(5));
    assert_eq!(complete_task(Some(3), 5), Err(CompletionError::AlreadyCompleted { at: 3 }));
}

#[test]
fn deleting_a_missing_task() {
    assert_eq!(delete_outcome(0), Err(DeleteError::NotFound));
    assert_eq!(delete_outcome(1), Ok(()));
}

#[test]
fn large_ids_in_headings() {
    let mut t = task(None);
    t.id = u64::MAX;
    assert_eq!(texts(&t.display(true, false, 0).lines), vec!["- [ ] (18446744073709551615) Test"]);
    t.id = 0;
    assert_eq!(texts(&t.display(true, false, 0).lines), vec!["- [ ] (0) Test"]);
}

#[test]
fn text_uses_local_time() {
    let t = task(None);
    let text = t.display(false, true, 0).to_text().unwrap();
    let created = chrono::DateTime::from_timestamp(100, 0)
        .unwrap()
        .with_timezone(&chrono::Local)
        .format("%d.%m.%Y %H:%M")
        .to_string();
    assert!(text.contains(&format!("  created:   {created}\n")));
    assert_eq!(text.lines().count(), 8);
    assert!(text.lines().nth(6).unwrap().ends_with(": half"));
    assert!(text.ends_with('\n'));
}
