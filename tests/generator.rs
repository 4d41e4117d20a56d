use rem::{parse_date_time, parse_timedelta, reminder_tasks, reminders_to_tasks, CatchUpError, NewTask, Reminder, Task};

const DAY: i64 = 86400;

fn reminder(id: u64, first_due: i64, period: i64, until: Option<i64>) -> Reminder {
    Reminder {
        id,
        title: format!("reminder {id}"),
        description: Some("every time".to_string()),
        created: 0,
        first_due,
        period,
        until,
    }
}

fn stored(id: u64, t: &NewTask) -> Task {
    Task {
        id,
        title: t.title.clone(),
        description: t.description.clone(),
        generated_by: t.generated_by,
        created: 0,
        start: t.start,
        due: t.due,
        completed: None,
        work_bits: Vec::new(),
    }
}

fn dues(v: &[NewTask]) -> Vec<i64> {
    v.iter().map(|t| t.due.unwrap()).collect()
}

#[test]
fn end_to_end_weekly_reminder() {
    let first_due = parse_date_time("01.01.2024 08:00").unwrap();
    let period = parse_timedelta("1w").unwrap();
    let now = parse_date_time("22.01.2024 08:00").unwrap();
    let r = reminder(1, first_due, period, None);
    let planned = reminders_to_tasks(&vec![r], &Vec::new(), now).unwrap();
    let expected: Vec<i64> = ["01.01.2024 08:00", "08.01.2024 08:00", "15.01.2024 08:00", "22.01.2024 08:00"]
        .iter()
        .map(|s| parse_date_time(s).unwrap())
        .collect();
    assert_eq!(dues(&planned), expected);
    assert_eq!(planned[1].start, Some(expected[0]));
    assert_eq!(planned[0].start, Some(first_due - period));
    for t in planned.iter() {
        assert_eq!(t.title, "reminder 1");
        assert_eq!(t.description.as_deref(), Some("every time"));
        assert_eq!(t.generated_by, Some(1));
    }
}

#[test]
fn occurrences_on_a_boundary() {
    let r = reminder(3, 1000, DAY, None);
    let planned = reminder_tasks(&r, &Vec::new(), 1000 + 2 * DAY).unwrap();
    assert_eq!(dues(&planned), vec![1000, 1000 + DAY, 1000 + 2 * DAY]);
    let starts: Vec<i64> = planned.iter().map(|t| t.start.unwrap()).collect();
    assert_eq!(starts, vec![1000 - DAY, 1000, 1000 + DAY]);
}

#[test]
fn occurrences_between_boundaries_include_the_next() {
    let r = reminder(3, 1000, DAY, None);
    let planned = reminder_tasks(&r, &Vec::new(), 1000 + 2 * DAY + 1).unwrap();
    assert_eq!(dues(&planned), vec![1000, 1000 + DAY, 1000 + 2 * DAY, 1000 + 3 * DAY]);
}

#[test]
fn first_due_far_ahead() {
    let r = reminder(3, 1000 + 5 * DAY, DAY, None);
    assert_eq!(dues(&reminder_tasks(&r, &Vec::new(), 1000).unwrap()), Vec::<i64>::new());
    let r = reminder(3, 1000 + DAY, DAY, None);
    assert_eq!(dues(&reminder_tasks(&r, &Vec::new(), 1001).unwrap()), vec![1000 + DAY]);
}

#[test]
fn catch_up_twice_adds_nothing() {
    let rs = vec![reminder(1, 0, DAY, None), reminder(2, 500, 7 * DAY, None)];
    let now = 30 * DAY + 17;
    let first = reminders_to_tasks(&rs, &Vec::new(), now).unwrap();
    assert_eq!(first.len(), 32 + 6);
    let tasks: Vec<Task> = first.iter().enumerate().map(|(i, t)| stored(i as u64, t)).collect();
    let second = reminders_to_tasks(&rs, &tasks, now).unwrap();
    assert!(second.is_empty());
}

#[test]
fn only_missing_occurrences_are_added() {
    let r = reminder(1, 0, DAY, None);
    let all = reminder_tasks(&r, &Vec::new(), 3 * DAY).unwrap();
    let kept: Vec<Task> = vec![stored(10, &all[0]), stored(11, &all[2])];
    let missing = reminder_tasks(&r, &kept, 3 * DAY).unwrap();
    assert_eq!(dues(&missing), vec![DAY, 3 * DAY]);
}

#[test]
fn tasks_of_other_reminders_do_not_count() {
    let r1 = reminder(1, 0, DAY, None);
    let r2 = reminder(2, 0, DAY, None);
    let of_r2: Vec<Task> = reminder_tasks(&r2, &Vec::new(), DAY)
        .unwrap()
        .iter()
        .enumerate()
        .map(|(i, t)| stored(i as u64, t))
        .collect();
    assert_eq!(dues(&reminder_tasks(&r1, &of_r2, DAY).unwrap()), vec![0, DAY]);
}

#[test]
fn until_excludes_at_and_after() {
    let now = 10 * DAY;
    let at = reminder(1, 0, DAY, Some(now));
    let after = reminder(2, 0, DAY, Some(now + 1));
    let before = reminder(3, 0, DAY, Some(now - 1));
    let planned = reminders_to_tasks(&vec![at, after, before], &Vec::new(), now).unwrap();
    assert!(planned.iter().all(|t| t.generated_by == Some(2)));
    assert_eq!(planned.len(), 11);
    assert!(!reminder(1, 0, DAY, Some(now)).is_active(now));
    assert!(reminder(1, 0, DAY, Some(now + 1)).is_active(now));
    assert!(reminder(1, 0, DAY, None).is_active(now));
}

#[test]
fn generated_task_without_due_is_corrupt() {
    let r = reminder(1, 0, DAY, None);
    let mut t = stored(5, &reminder_tasks(&r, &Vec::new(), 0).unwrap()[0]);
    t.due = None;
    assert_eq!(reminders_to_tasks(&vec![r], &vec![t], DAY).err(), Some(CatchUpError::MissingDue));
    let stopped = reminder(1, 0, DAY, Some(DAY));
    let mut t2 = stored(5, &reminder_tasks(&stopped, &Vec::new(), 0).unwrap()[0]);
    t2.due = None;
    assert!(reminders_to_tasks(&vec![stopped], &vec![t2], DAY).unwrap().is_empty());
}

#[test]
fn readiness_and_next_due() {
    let r = reminder(1, 100, DAY, None);
    assert!(r.is_ready(0));
    assert!(!reminder(1, 100, 0, None).is_ready(0));
    assert!(!r.is_ready(i64::MAX));
    assert_eq!(r.next_due(0), 100);
    assert_eq!(r.next_due(100), 100);
    assert_eq!(r.next_due(101), 100 + DAY);
    assert_eq!(r.next_due(100 + 3 * DAY - 1), 100 + 3 * DAY);
}

#[test]
fn stopped_reminders_need_no_window() {
    let now = 10 * DAY;
    let broken_but_stopped = reminder(1, 0, 0, Some(now));
    let running = reminder(2, 0, DAY, None);
    let planned = reminders_to_tasks(&vec![broken_but_stopped, running], &Vec::new(), now).unwrap();
    assert_eq!(planned.len(), 11);
    assert!(planned.iter().all(|t| t.generated_by == Some(2)));
}

#[test]
fn plain_reminder_listing_needs_no_window() {
    let r = reminder(4, 0, 0, None);
    assert_eq!(r.display(true, false, i64::MAX).to_text(), Some("- [ ] (4) reminder 4\n".to_string()));
}
