//! The in-memory semantics of the local file backend. The surrounding binary
//! reads the whole task file, hands the decoded list in, and writes the
//! whole list back after every mutating call; everything the backend decides
//! about the list itself is here, as verified functions over the list.
//!
//! The divergences from the remote backend are deliberate: `edit` of an
//! unknown id inserts the task at the front (last write wins), and
//! `complete` is exactly `remove` with the removed record discarded, since
//! completion history is kept only by the durable store fed from the remote
//! path.

use vstd::prelude::*;

use crate::error::Error;
use crate::types::{spec_task_eq, Task, TaskId};

verus! {

/// True when some task in the list carries the given id.
pub open spec fn has_task(s: Seq<Task>, id: Seq<char>) -> bool {
    exists|i: int| 0 <= i < s.len() && s[i].id@ == id
}

/// True when position `i` holds the first task in the list with the given id.
pub open spec fn is_first_match(s: Seq<Task>, id: Seq<char>, i: int) -> bool {
    &&& 0 <= i < s.len()
    &&& s[i].id@ == id
    &&& forall|j: int| 0 <= j < i ==> s[j].id@ != id
}

/// An index clamped to an upper bound.
pub open spec fn spec_clamp(i: int, bound: int) -> int {
    if i <= bound {
        i
    } else {
        bound
    }
}

/// The position of the first task with the given id, if any.
fn find_task(tasks: &Vec<Task>, id: &TaskId) -> (r: Option<usize>)
    ensures
        match r {
            Some(i) => is_first_match(tasks@, id@, i as int),
            None => !has_task(tasks@, id@),
        },
{
    let mut i: usize = 0;
    while i < tasks.len()
        invariant
            i <= tasks@.len(),
            forall|j: int| 0 <= j < i ==> tasks@[j].id@ != id@,
        decreases tasks@.len() - i,
    {
        if tasks[i].id == *id {
            return Some(i);
        }
        i += 1;
    }
    None
}

/// Create a task: the local backend assigns no identifier, so the task is
/// inserted at the front of the list exactly as handed in, id untouched, and
/// echoed back to the caller.
pub fn post_created_task(tasks: &mut Vec<Task>, task: Task) -> (r: Task)
    ensures
        final(tasks)@ == old(tasks)@.insert(0, task),
        spec_task_eq(r, task),
{
    let echo = task.clone();
    tasks.insert(0, task);
    echo
}

/// Edit a task by id, with upsert semantics: the first task carrying the
/// same id is replaced in place, and when no task carries it the record is
/// inserted at the front as new. The stored task is echoed back.
pub fn edit_task(tasks: &mut Vec<Task>, task: Task) -> (r: Task)
    ensures
        !has_task(old(tasks)@, task.id@) ==> final(tasks)@ == old(tasks)@.insert(0, task),
        forall|i: int|
            is_first_match(old(tasks)@, task.id@, i) ==> final(tasks)@ == old(tasks)@.update(
                i,
                task,
            ),
        spec_task_eq(r, task),
{
    let echo = task.clone();
    match find_task(tasks, &task.id) {
        Some(i) => {
            tasks.remove(i);
            tasks.insert(i, task);
            proof {
                assert forall|k: int|
                    is_first_match(old(tasks)@, task.id@, k) implies tasks@ == old(
                    tasks,
                )@.update(k, task) by {
                    assert(k == i as int);
                    assert(tasks@ =~= old(tasks)@.update(i as int, task));
                }
            }
        },
        None => {
            tasks.insert(0, task);
        },
    }
    echo
}

/// Remove a task by id: the first task carrying the id leaves the list and
/// is returned; an unknown id fails with `NotFound` and leaves the list
/// unchanged.
pub fn remove_task(tasks: &mut Vec<Task>, id: &TaskId) -> (r: Result<Task, Error>)
    ensures
        has_task(old(tasks)@, id@) == (r is Ok),
        r is Err ==> final(tasks)@ == old(tasks)@ && (r matches Err(e) && e is NotFound),
        forall|i: int|
            is_first_match(old(tasks)@, id@, i) ==> final(tasks)@ == old(tasks)@.remove(i) && r
                == Ok::<Task, Error>(old(tasks)@[i]),
{
    match find_task(tasks, id) {
        Some(i) => {
            let t = tasks.remove(i);
            proof {
                assert forall|k: int| is_first_match(old(tasks)@, id@, k) implies k == i as int by {
                }
            }
            Ok(t)
        },
        None => Err(Error::NotFound),
    }
}

/// Complete a task locally: defined as removal with the removed record
/// discarded. The local backend keeps no completion history of its own.
pub fn complete_task(tasks: &mut Vec<Task>, id: &TaskId) -> (r: Result<(), Error>)
    ensures
        has_task(old(tasks)@, id@) == (r is Ok),
        r is Err ==> final(tasks)@ == old(tasks)@ && (r matches Err(e) && e is NotFound),
        forall|i: int|
            is_first_match(old(tasks)@, id@, i) ==> final(tasks)@ == old(tasks)@.remove(i),
{
    match remove_task(tasks, id) {
        Ok(_) => Ok(()),
        Err(e) => Err(e),
    }
}

/// Reorder a task by id: the first task carrying the id is removed from its
/// current position and reinserted at the target index, clamped to the
/// length of the list it is reinserted into. An unknown id fails with
/// `NotFound` and leaves the list unchanged.
pub fn reorder_task(tasks: &mut Vec<Task>, id: &TaskId, index: usize) -> (r: Result<(), Error>)
    ensures
        has_task(old(tasks)@, id@) == (r is Ok),
        r is Err ==> final(tasks)@ == old(tasks)@ && (r matches Err(e) && e is NotFound),
        forall|i: int|
            is_first_match(old(tasks)@, id@, i) ==> final(tasks)@ == old(tasks)@.remove(i).insert(
                spec_clamp(index as int, old(tasks)@.len() - 1),
                old(tasks)@[i],
            ),
{
    match find_task(tasks, id) {
        Some(i) => {
            let t = tasks.remove(i);
            let target = if index <= tasks.len() {
                index
            } else {
                tasks.len()
            };
            tasks.insert(target, t);
            proof {
                assert forall|k: int| is_first_match(old(tasks)@, id@, k) implies k == i as int by {
                }
            }
            Ok(())
        },
        None => Err(Error::NotFound),
    }
}

} // verus!
