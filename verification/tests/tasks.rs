use habitui::codec::{Difficulty, PRIORITY_UNIT};
use habitui::date::CalendarDate;
use habitui::descriptor::{parse_task_descriptor, split_string};
use habitui::error::Error;
use habitui::types::{
    checklist_item_formatter, finish_checklist, normalize_notes, SubTask, Task, TaskId,
};
use habitui::wire::{from_wire, to_wire, WireTask};

#[test]
fn a_default_task_is_a_fresh_todo() {
    let t = Task::default();
    assert!(t.id.is_empty());
    assert_eq!(t.text, "".to_string());
    assert_eq!(t.task_type, "todo".to_string());
    assert_eq!(t.difficulty, Difficulty::Easy);
    assert!(t.notes.is_none());
    assert!(t.date.is_none());
    assert!(t.completed_at.is_none());
    assert!(t.checklist.is_none());
}

#[test]
fn task_ids_compare_by_raw_string() {
    assert_eq!(TaskId::new("abc".to_string()), TaskId::new("abc".to_string()));
    assert_ne!(TaskId::new("abc".to_string()), TaskId::new("abd".to_string()));
    assert!(TaskId::empty().is_empty());
    assert!(!TaskId::new("x".to_string()).is_empty());
    assert_eq!(TaskId::new("abc".to_string()).as_str(), "abc");
}

#[test]
fn prompt_helpers_normalize_empty_input() {
    assert_eq!(checklist_item_formatter("buy milk"), "[] buy milk".to_string());
    assert!(normalize_notes("".to_string()).is_none());
    assert_eq!(normalize_notes("note".to_string()), Some("note".to_string()));
    assert!(finish_checklist(vec![]).is_none());
    let items = vec![SubTask { text: "a".to_string(), completed: false }];
    assert_eq!(finish_checklist(items.clone()), Some(items));
}

#[test]
fn display_represents_every_field() {
    let t = Task {
        id: TaskId::new("abc".to_string()),
        text: "write tests".to_string(),
        task_type: "todo".to_string(),
        difficulty: Difficulty::Medium,
        notes: Some("soon".to_string()),
        date: Some(CalendarDate { year: 2024, month: 3, day: 9 }),
        completed_at: None,
        checklist: Some(vec![
            SubTask { text: "draft".to_string(), completed: true },
            SubTask { text: "polish".to_string(), completed: false },
        ]),
    };
    assert_eq!(
        t.display_string(),
        "write tests [Medium]\nsoon\n2024-03-09\n[x] draft\n[ ] polish\n".to_string()
    );
    let bare = Task { text: "bare".to_string(), ..Task::default() };
    assert_eq!(bare.display_string(), "bare [Easy]\n".to_string());
}

#[test]
fn split_keeps_empty_parts() {
    let parts = split_string("a,b,c", ',');
    assert_eq!(parts, vec!["a".to_string(), "b".to_string(), "c".to_string()]);
    assert_eq!(split_string("", ','), vec!["".to_string()]);
    assert_eq!(split_string("a,,c", ','), vec!["a".to_string(), "".to_string(), "c".to_string()]);
    assert_eq!(split_string(",", ','), vec!["".to_string(), "".to_string()]);
    assert_eq!(split_string("abc", ','), vec!["abc".to_string()]);
}

#[test]
fn a_minimal_descriptor_needs_name_and_difficulty() {
    let t = parse_task_descriptor("laundry,Easy".to_string()).unwrap();
    assert_eq!(t.text, "laundry".to_string());
    assert_eq!(t.difficulty, Difficulty::Easy);
    assert_eq!(t.task_type, "todo".to_string());
    assert!(t.id.is_empty());
    assert!(t.notes.is_none());
    assert!(t.date.is_none());
    assert!(t.checklist.is_none());
}

#[test]
fn a_full_descriptor_fills_every_part() {
    let t = parse_task_descriptor("trip,Hard,pack early,2024-02-29,tickets;passport".to_string())
        .unwrap();
    assert_eq!(t.text, "trip".to_string());
    assert_eq!(t.difficulty, Difficulty::Hard);
    assert_eq!(t.notes, Some("pack early".to_string()));
    assert_eq!(t.date, Some(CalendarDate { year: 2024, month: 2, day: 29 }));
    let cl = t.checklist.unwrap();
    assert_eq!(cl.len(), 2);
    assert_eq!(cl[0], SubTask { text: "tickets".to_string(), completed: false });
    assert_eq!(cl[1], SubTask { text: "passport".to_string(), completed: false });
}

#[test]
fn descriptors_with_bad_parts_are_malformed() {
    assert!(matches!(parse_task_descriptor("onlyname".to_string()), Err(Error::Malformed)));
    assert!(matches!(parse_task_descriptor("".to_string()), Err(Error::Malformed)));
    assert!(matches!(parse_task_descriptor("name,Sideways".to_string()), Err(Error::Malformed)));
    assert!(matches!(
        parse_task_descriptor("name,Easy,notes,not-a-date".to_string()),
        Err(Error::Malformed)
    ));
}

#[test]
fn a_trailing_comma_keeps_an_empty_notes_part() {
    let t = parse_task_descriptor("name,Medium,".to_string()).unwrap();
    assert_eq!(t.notes, Some("".to_string()));
    assert!(t.date.is_none());
}

#[test]
fn parts_past_the_checklist_are_ignored() {
    let t = parse_task_descriptor("a,Medium,n,2023-01-15,x;y,ignored".to_string()).unwrap();
    let cl = t.checklist.unwrap();
    assert_eq!(cl.len(), 2);
    assert_eq!(cl[0].text, "x".to_string());
    assert_eq!(cl[1].text, "y".to_string());
}

#[test]
fn a_task_round_trips_through_its_wire_form() {
    let t = Task {
        id: TaskId::new("abc-123".to_string()),
        text: "write tests".to_string(),
        task_type: "todo".to_string(),
        difficulty: Difficulty::Trivial,
        notes: Some("soon".to_string()),
        date: Some(CalendarDate { year: 2024, month: 3, day: 9 }),
        completed_at: Some(1_700_000_000),
        checklist: Some(vec![
            SubTask { text: "draft".to_string(), completed: true },
            SubTask { text: "polish".to_string(), completed: false },
        ]),
    };
    let w = to_wire(&t);
    assert_eq!(w.id, "abc-123".to_string());
    assert_eq!(w.priority, PRIORITY_UNIT / 10);
    assert_eq!(w.date, Some("2024-03-09".to_string()));
    let t2 = from_wire(w).unwrap();
    assert_eq!(t2.id, t.id);
    assert_eq!(t2.text, t.text);
    assert_eq!(t2.task_type, t.task_type);
    assert_eq!(t2.difficulty, t.difficulty);
    assert_eq!(t2.notes, t.notes);
    assert_eq!(t2.date, t.date);
    assert_eq!(t2.completed_at, t.completed_at);
    assert_eq!(t2.checklist.unwrap(), t.checklist.unwrap());
}

#[test]
fn absent_optional_fields_stay_absent_over_the_wire() {
    let t = Task { text: "bare".to_string(), ..Task::default() };
    let w = to_wire(&t);
    assert!(w.notes.is_none() && w.date.is_none() && w.checklist.is_none());
    let t2 = from_wire(w).unwrap();
    assert!(t2.notes.is_none() && t2.date.is_none() && t2.checklist.is_none());
    assert_eq!(t2.text, "bare".to_string());
}

#[test]
fn wire_decoding_tolerates_perturbed_priorities() {
    let mut w = to_wire(&Task::default());
    w.priority += 5_000;
    let t2 = from_wire(w).unwrap();
    assert_eq!(t2.difficulty, Difficulty::Easy);
    let mut w2 = to_wire(&Task::default());
    w2.priority = 777;
    assert_eq!(from_wire(w2).unwrap().difficulty, Difficulty::Hard);
}

#[test]
fn malformed_wire_forms_are_rejected() {
    let habit = WireTask {
        id: "x".to_string(),
        text: "t".to_string(),
        task_type: "habit".to_string(),
        priority: PRIORITY_UNIT,
        notes: None,
        date: None,
        completed_at: None,
        checklist: None,
    };
    assert!(matches!(from_wire(habit), Err(Error::Malformed)));
    let bad_date = WireTask {
        id: "x".to_string(),
        text: "t".to_string(),
        task_type: "todo".to_string(),
        priority: PRIORITY_UNIT,
        notes: None,
        date: Some("2023-02-31".to_string()),
        completed_at: None,
        checklist: None,
    };
    assert!(matches!(from_wire(bad_date), Err(Error::Malformed)));
}
