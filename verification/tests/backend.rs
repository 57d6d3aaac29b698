use habitui::codec::Difficulty;
use habitui::error::Error;
use habitui::local::{complete_task, edit_task, post_created_task, remove_task, reorder_task};
use habitui::types::{Task, TaskId};

fn task(id: &str, text: &str, difficulty: Difficulty) -> Task {
    Task {
        id: TaskId::new(id.to_string()),
        text: text.to_string(),
        task_type: "todo".to_string(),
        difficulty,
        notes: None,
        date: None,
        completed_at: None,
        checklist: None,
    }
}

fn ids(tasks: &[Task]) -> Vec<String> {
    tasks.iter().map(|t| t.id.as_str().to_string()).collect()
}

#[test]
fn create_inserts_at_the_front_id_untouched() {
    let mut list = vec![task("a", "first", Difficulty::Easy)];
    let created = post_created_task(&mut list, task("", "fresh", Difficulty::Hard));
    assert!(created.id.is_empty());
    assert_eq!(created.text, "fresh".to_string());
    assert_eq!(ids(&list), vec!["".to_string(), "a".to_string()]);
}

#[test]
fn edit_replaces_the_matching_task_in_place() {
    let mut list = vec![
        task("a", "one", Difficulty::Easy),
        task("b", "two", Difficulty::Easy),
        task("c", "three", Difficulty::Easy),
    ];
    let echoed = edit_task(&mut list, task("b", "two, edited", Difficulty::Hard));
    assert_eq!(echoed.text, "two, edited".to_string());
    assert_eq!(ids(&list), vec!["a".to_string(), "b".to_string(), "c".to_string()]);
    assert_eq!(list[1].text, "two, edited".to_string());
    assert_eq!(list[1].difficulty, Difficulty::Hard);
    assert_eq!(list[0].text, "one".to_string());
    assert_eq!(list[2].text, "three".to_string());
}

#[test]
fn edit_of_an_unknown_id_inserts_at_the_front() {
    let mut list = vec![task("a", "one", Difficulty::Easy)];
    edit_task(&mut list, task("zz", "new", Difficulty::Medium));
    assert_eq!(ids(&list), vec!["zz".to_string(), "a".to_string()]);
    assert_eq!(list[0].text, "new".to_string());
}

#[test]
fn remove_returns_the_removed_task() {
    let mut list = vec![
        task("a", "one", Difficulty::Easy),
        task("b", "two", Difficulty::Easy),
    ];
    let removed = remove_task(&mut list, &TaskId::new("a".to_string())).unwrap();
    assert_eq!(removed.text, "one".to_string());
    assert_eq!(ids(&list), vec!["b".to_string()]);
}

#[test]
fn remove_of_an_unknown_id_is_not_found() {
    let mut list = vec![task("a", "one", Difficulty::Easy)];
    let r = remove_task(&mut list, &TaskId::new("zz".to_string()));
    assert!(matches!(r, Err(Error::NotFound)));
    assert_eq!(ids(&list), vec!["a".to_string()]);
}

#[test]
fn complete_discards_the_removed_task() {
    let mut list = vec![
        task("a", "one", Difficulty::Easy),
        task("b", "two", Difficulty::Easy),
    ];
    complete_task(&mut list, &TaskId::new("b".to_string())).unwrap();
    assert_eq!(ids(&list), vec!["a".to_string()]);
    let r = complete_task(&mut list, &TaskId::new("b".to_string()));
    assert!(matches!(r, Err(Error::NotFound)));
}

#[test]
fn reorder_moves_the_task_to_the_target_index() {
    let mut list = vec![
        task("a", "one", Difficulty::Easy),
        task("b", "two", Difficulty::Easy),
        task("c", "three", Difficulty::Easy),
    ];
    reorder_task(&mut list, &TaskId::new("c".to_string()), 0).unwrap();
    assert_eq!(ids(&list), vec!["c".to_string(), "a".to_string(), "b".to_string()]);
}

#[test]
fn reorder_clamps_an_index_past_the_end() {
    let mut list = vec![
        task("a", "one", Difficulty::Easy),
        task("b", "two", Difficulty::Easy),
        task("c", "three", Difficulty::Easy),
    ];
    reorder_task(&mut list, &TaskId::new("a".to_string()), 99).unwrap();
    assert_eq!(ids(&list), vec!["b".to_string(), "c".to_string(), "a".to_string()]);
}

#[test]
fn reorder_of_an_unknown_id_is_not_found() {
    let mut list = vec![task("a", "one", Difficulty::Easy)];
    let r = reorder_task(&mut list, &TaskId::new("zz".to_string()), 0);
    assert!(matches!(r, Err(Error::NotFound)));
    assert_eq!(ids(&list), vec!["a".to_string()]);
}
