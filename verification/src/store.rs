//! The durable completed-task store, modelled as the sequence of rows the
//! relational table holds. The table keys rows by the task id, so the store's
//! invariant is that no two rows carry the same id; insertion is an upsert
//! that does nothing on an id conflict, which makes replaying the same
//! completed-task feed safe.
//!
//! The surrounding binary mirrors every accepted row with one database
//! insert-or-ignore statement; everything the store decides is here.

use vstd::prelude::*;

use crate::local::has_task;
use crate::types::{Task, TaskId};

verus! {

/// No two rows carry the same id.
pub open spec fn store_inv(s: Seq<Task>) -> bool {
    forall|i: int, j: int| 0 <= i < j < s.len() ==> s[i].id@ != s[j].id@
}

/// How many rows carry the given id.
pub open spec fn count_id(s: Seq<Task>, id: Seq<char>) -> int
    decreases s.len(),
{
    if s.len() == 0 {
        0
    } else {
        count_id(s.drop_last(), id) + if s.last().id@ == id {
            1int
        } else {
            0int
        }
    }
}

/// What one upsert leaves in the store: the rows unchanged on an id
/// conflict, and the new row appended otherwise.
pub open spec fn spec_upsert(s: Seq<Task>, t: Task) -> Seq<Task> {
    if has_task(s, t.id@) {
        s
    } else {
        s.push(t)
    }
}

/// What ingesting a whole feed leaves in the store: one upsert per task, in
/// feed order.
pub open spec fn spec_ingest(s: Seq<Task>, ts: Seq<Task>) -> Seq<Task>
    decreases ts.len(),
{
    if ts.len() == 0 {
        s
    } else {
        spec_ingest(spec_upsert(s, ts[0]), ts.drop_first())
    }
}

/// The completed-task store: one row per completed task, immutable except
/// for idempotent re-insertion.
pub struct CompletedStore {
    rows: Vec<Task>,
}

impl View for CompletedStore {
    type V = Seq<Task>;

    closed spec fn view(&self) -> Seq<Task> {
        self.rows@
    }
}

impl CompletedStore {
    /// An empty store.
    pub fn new() -> (s: CompletedStore)
        ensures
            s@ == Seq::<Task>::empty(),
            store_inv(s@),
    {
        CompletedStore { rows: Vec::new() }
    }

    /// The rows currently held, in insertion order.
    pub fn rows(&self) -> (r: &Vec<Task>)
        ensures
            r@ == self@,
    {
        &self.rows
    }

    /// How many rows carry the given id.
    pub fn count(&self, id: &TaskId) -> (n: usize)
        ensures
            n as int == count_id(self@, id@),
    {
        let mut n: usize = 0;
        let mut i: usize = 0;
        proof {
            assert(self@.subrange(0, 0) =~= Seq::<Task>::empty());
        }
        while i < self.rows.len()
            invariant
                i <= self@.len(),
                n <= i,
                n as int == count_id(self@.subrange(0, i as int), id@),
            decreases self@.len() - i,
        {
            proof {
                assert(self@.subrange(0, i + 1 as int).drop_last() =~= self@.subrange(0, i as int));
                assert(self@.subrange(0, i + 1 as int).last() == self@[i as int]);
            }
            if self.rows[i].id == *id {
                n += 1;
            }
            i += 1;
        }
        proof {
            assert(self@.subrange(0, self@.len() as int) =~= self@);
        }
        n
    }

    /// Insert a completed task, ignoring it when a row already carries its
    /// id. The store's invariant is preserved either way.
    pub fn upsert(&mut self, task: Task)
        requires
            store_inv(old(self)@),
        ensures
            final(self)@ == spec_upsert(old(self)@, task),
            store_inv(final(self)@),
    {
        let mut i: usize = 0;
        while i < self.rows.len()
            invariant
                i <= self@.len(),
                self@ == old(self)@,
                store_inv(self@),
                forall|j: int| 0 <= j < i ==> self@[j].id@ != task.id@,
            decreases self@.len() - i,
        {
            if self.rows[i].id == task.id {
                return ;
            }
            i += 1;
        }
        self.rows.push(task);
        proof {
            assert(!has_task(old(self)@, task.id@));
            assert forall|a: int, b: int| 0 <= a < b < self@.len() implies self@[a].id@
                != self@[b].id@ by {
                if b < self@.len() - 1 {
                    assert(self@[a] == old(self)@[a] && self@[b] == old(self)@[b]);
                }
            }
        }
    }

    /// Ingest a whole completed-task feed: one upsert per task, in feed
    /// order. Replaying a feed that was already ingested changes nothing.
    pub fn ingest(&mut self, tasks: Vec<Task>)
        requires
            store_inv(old(self)@),
        ensures
            final(self)@ == spec_ingest(old(self)@, tasks@),
            store_inv(final(self)@),
    {
        let mut feed = tasks;
        while feed.len() > 0
            invariant
                store_inv(self@),
                spec_ingest(old(self)@, tasks@) == spec_ingest(self@, feed@),
            decreases feed@.len(),
        {
            let ghost prev_feed = feed@;
            let t = feed.remove(0);
            proof {
                assert(feed@ =~= prev_feed.drop_first());
            }
            self.upsert(t);
        }
    }
}

/// A row count of zero is exactly the absence of the id.
proof fn lemma_count_zero(s: Seq<Task>, id: Seq<char>)
    ensures
        (count_id(s, id) == 0) <==> !has_task(s, id),
    decreases s.len(),
{
    if s.len() > 0 {
        lemma_count_zero(s.drop_last(), id);
        assert(count_id(s.drop_last(), id) >= 0) by {
            lemma_count_nonneg(s.drop_last(), id);
        }
        assert forall|i: int| 0 <= i < s.len() - 1 implies s.drop_last()[i] == s[i] by {}
        if has_task(s, id) {
            let w = choose|w: int| 0 <= w < s.len() && s[w].id@ == id;
            if w < s.len() - 1 {
                assert(has_task(s.drop_last(), id));
            }
        }
        if has_task(s.drop_last(), id) {
            let w = choose|w: int| 0 <= w < s.len() - 1 && s.drop_last()[w].id@ == id;
            assert(s[w].id@ == id);
        }
    }
}

/// Row counts are never negative.
proof fn lemma_count_nonneg(s: Seq<Task>, id: Seq<char>)
    ensures
        count_id(s, id) >= 0,
    decreases s.len(),
{
    if s.len() > 0 {
        lemma_count_nonneg(s.drop_last(), id);
    }
}

/// Under the store invariant, an id that is present at all is present in
/// exactly one row.
proof fn lemma_count_unique(s: Seq<Task>, id: Seq<char>)
    requires
        store_inv(s),
        has_task(s, id),
    ensures
        count_id(s, id) == 1,
    decreases s.len(),
{
    let rest = s.drop_last();
    assert forall|i: int| 0 <= i < s.len() - 1 implies rest[i] == s[i] by {}
    if s.last().id@ == id {
        assert(!has_task(rest, id)) by {
            if has_task(rest, id) {
                let w = choose|w: int| 0 <= w < rest.len() && rest[w].id@ == id;
                assert(s[w].id@ == s[s.len() - 1].id@);
            }
        }
        lemma_count_zero(rest, id);
    } else {
        assert(has_task(rest, id)) by {
            let w = choose|w: int| 0 <= w < s.len() && s[w].id@ == id;
            assert(w < s.len() - 1);
        }
        lemma_count_unique(rest, id);
    }
}

/// Law: upserting two completed tasks that carry the same id — in
/// particular, the same task twice — leaves exactly one row with that id,
/// and the second upsert changes nothing at all.
pub proof fn lemma_upsert_idempotent(s: Seq<Task>, t1: Task, t2: Task)
    requires
        store_inv(s),
        t1.id@ == t2.id@,
    ensures
        spec_upsert(spec_upsert(s, t1), t2) == spec_upsert(s, t1),
        count_id(spec_upsert(spec_upsert(s, t1), t2), t2.id@) == 1,
{
    let s1 = spec_upsert(s, t1);
    assert(has_task(s1, t1.id@)) by {
        if has_task(s, t1.id@) {
        } else {
            assert(s1 == s.push(t1));
            assert(s1[s.len() as int].id@ == t1.id@);
        }
    }
    assert(store_inv(s1)) by {
        if !has_task(s, t1.id@) {
            assert forall|a: int, b: int| 0 <= a < b < s1.len() implies s1[a].id@ != s1[b].id@ by {
                if b < s1.len() - 1 {
                    assert(s1[a] == s[a] && s1[b] == s[b]);
                } else {
                    assert(s1[a] == s[a]);
                }
            }
        }
    }
    lemma_count_unique(s1, t1.id@);
}

} // verus!
