use habitui::codec::Difficulty;
use habitui::error::Error;
use habitui::reorder::{apply_reorder_plan, priority_reorder_tasks};
use habitui::types::{Task, TaskId};

fn task(id: &str, difficulty: Difficulty) -> Task {
    Task {
        id: TaskId::new(id.to_string()),
        text: format!("task {id}"),
        task_type: "todo".to_string(),
        difficulty,
        notes: None,
        date: None,
        completed_at: None,
        checklist: None,
    }
}

fn ids(tasks: &[Task]) -> Vec<String> {
    tasks.iter().map(|t| t.id.as_str().to_string()).collect()
}

#[test]
fn plan_for_the_mixed_tier_list() {
    // Tiers in order: Low, High, Mid, High, Low, Mid.
    let tasks = vec![
        task("t0", Difficulty::Easy),
        task("t1", Difficulty::Hard),
        task("t2", Difficulty::Medium),
        task("t3", Difficulty::Hard),
        task("t4", Difficulty::Trivial),
        task("t5", Difficulty::Medium),
    ];
    let calls = priority_reorder_tasks(&tasks);
    let got: Vec<(String, usize)> =
        calls.iter().map(|c| (c.id.as_str().to_string(), c.index)).collect();
    assert_eq!(
        got,
        vec![
            ("t1".to_string(), 0),
            ("t2".to_string(), 1),
            ("t3".to_string(), 1),
            ("t5".to_string(), 3),
        ]
    );
}

#[test]
fn plan_is_empty_without_high_or_mid_tasks() {
    assert_eq!(priority_reorder_tasks(&vec![]).len(), 0);
    let lows = vec![task("a", Difficulty::Easy), task("b", Difficulty::Trivial)];
    assert_eq!(priority_reorder_tasks(&lows).len(), 0);
}

#[test]
fn plan_gives_high_tasks_the_leading_slots_in_order() {
    let tasks = vec![
        task("h0", Difficulty::Hard),
        task("h1", Difficulty::Hard),
        task("h2", Difficulty::Hard),
    ];
    let calls = priority_reorder_tasks(&tasks);
    let got: Vec<(String, usize)> =
        calls.iter().map(|c| (c.id.as_str().to_string(), c.index)).collect();
    assert_eq!(
        got,
        vec![("h0".to_string(), 0), ("h1".to_string(), 1), ("h2".to_string(), 2)]
    );
}

#[test]
fn applying_the_plan_front_loads_high_then_mid() {
    let mut tasks = vec![
        task("t0", Difficulty::Easy),
        task("t1", Difficulty::Hard),
        task("t2", Difficulty::Medium),
        task("t3", Difficulty::Hard),
        task("t4", Difficulty::Trivial),
        task("t5", Difficulty::Medium),
    ];
    let calls = priority_reorder_tasks(&tasks);
    apply_reorder_plan(&mut tasks, &calls).unwrap();
    assert_eq!(
        ids(&tasks),
        vec![
            "t1".to_string(),
            "t3".to_string(),
            "t2".to_string(),
            "t5".to_string(),
            "t0".to_string(),
            "t4".to_string(),
        ]
    );
}

#[test]
fn a_failing_call_stops_the_pass_without_rollback() {
    let mut tasks = vec![
        task("t0", Difficulty::Easy),
        task("t1", Difficulty::Hard),
        task("t2", Difficulty::Medium),
    ];
    let mut calls = priority_reorder_tasks(&tasks);
    // The middle call targets an id the backend no longer has.
    calls[1].id = TaskId::new("gone".to_string());
    let r = apply_reorder_plan(&mut tasks, &calls);
    assert!(matches!(r, Err(Error::NotFound)));
    // The first call was applied and stays applied.
    assert_eq!(ids(&tasks), vec!["t1".to_string(), "t0".to_string(), "t2".to_string()]);
}
