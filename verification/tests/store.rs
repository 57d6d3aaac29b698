use habitui::codec::Difficulty;
use habitui::store::CompletedStore;
use habitui::types::{Task, TaskId};

fn completed(id: &str, at: i64) -> Task {
    Task {
        id: TaskId::new(id.to_string()),
        text: format!("done {id}"),
        task_type: "todo".to_string(),
        difficulty: Difficulty::Easy,
        notes: None,
        date: None,
        completed_at: Some(at),
        checklist: None,
    }
}

#[test]
fn upserting_the_same_id_twice_leaves_one_row() {
    let mut store = CompletedStore::new();
    store.upsert(completed("a", 1));
    store.upsert(completed("a", 2));
    assert_eq!(store.rows().len(), 1);
    assert_eq!(store.count(&TaskId::new("a".to_string())), 1);
    // The first write wins: the conflicting row was ignored.
    assert_eq!(store.rows()[0].completed_at, Some(1));
}

#[test]
fn distinct_ids_each_get_a_row() {
    let mut store = CompletedStore::new();
    store.upsert(completed("a", 1));
    store.upsert(completed("b", 2));
    store.upsert(completed("c", 3));
    assert_eq!(store.rows().len(), 3);
    assert_eq!(store.count(&TaskId::new("b".to_string())), 1);
    assert_eq!(store.count(&TaskId::new("zz".to_string())), 0);
}

#[test]
fn replaying_a_feed_changes_nothing() {
    let feed = || vec![completed("a", 1), completed("b", 2), completed("a", 9)];
    let mut store = CompletedStore::new();
    store.ingest(feed());
    assert_eq!(store.rows().len(), 2);
    store.ingest(feed());
    assert_eq!(store.rows().len(), 2);
    assert_eq!(store.count(&TaskId::new("a".to_string())), 1);
    assert_eq!(store.count(&TaskId::new("b".to_string())), 1);
    assert_eq!(store.rows()[0].completed_at, Some(1));
    assert_eq!(store.rows()[1].completed_at, Some(2));
}
