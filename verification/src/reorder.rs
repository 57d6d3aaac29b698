//! The priority-reordering engine. From the current task list, in the
//! backend's existing order, it computes the backend `reorder` calls that
//! pull every High-tier task to the front, followed by every Mid-tier task,
//! keeping the relative order within each tier (a stable partition);
//! Low-tier tasks receive no calls and settle wherever the backend's
//! insertion shifts leave them.
//!
//! The engine issues the calls one at a time and does not roll back on
//! failure: applying a plan stops at the first failing call and the already
//! applied reorders stay applied.

use vstd::prelude::*;

use crate::codec::{spec_tier, Priority};
use crate::error::Error;
use crate::local;
use crate::local::{has_task, is_first_match, spec_clamp};
use crate::types::Task;
use crate::types::TaskId;

verus! {

/// One backend `reorder` call: move the task with this id to this index.
#[derive(Debug)]
pub struct ReorderCall {
    pub id: TaskId,
    pub index: usize,
}

/// The planned call sequence for a task list, scanned left to right with the
/// two running counters. A High task is sent to the next High slot and
/// advances both counters, since every High insertion shifts the slot every
/// later Mid task must land in; a Mid task is sent to the next Mid slot and
/// advances only the Mid counter; a Low task issues no call.
pub open spec fn spec_plan(ts: Seq<Task>, high: int, mid: int) -> Seq<ReorderCall>
    decreases ts.len(),
{
    if ts.len() == 0 {
        Seq::<ReorderCall>::empty()
    } else {
        match spec_tier(ts[0].difficulty) {
            Priority::Low => spec_plan(ts.drop_first(), high, mid),
            Priority::Mid => seq![ReorderCall { id: ts[0].id, index: mid as usize }] + spec_plan(
                ts.drop_first(),
                high,
                mid + 1,
            ),
            Priority::High => seq![ReorderCall { id: ts[0].id, index: high as usize }] + spec_plan(
                ts.drop_first(),
                high + 1,
                mid + 1,
            ),
        }
    }
}

/// Compute the reorder plan for the whole list: exactly the calls of
/// [`spec_plan`] started with both counters at zero, in that order. An empty
/// list, or one with no High- or Mid-tier task, plans zero calls.
pub fn priority_reorder_tasks(tasks: &Vec<Task>) -> (calls: Vec<ReorderCall>)
    ensures
        calls@ == spec_plan(tasks@, 0, 0),
{
    let mut calls: Vec<ReorderCall> = Vec::new();
    let mut high: usize = 0;
    let mut mid: usize = 0;
    let mut i: usize = 0;
    proof {
        assert(tasks@.skip(0) =~= tasks@);
        assert(Seq::<ReorderCall>::empty() + spec_plan(tasks@, 0, 0) =~= spec_plan(tasks@, 0, 0));
    }
    while i < tasks.len()
        invariant
            i <= tasks@.len(),
            high <= i,
            mid <= i,
            spec_plan(tasks@, 0, 0) == calls@ + spec_plan(
                tasks@.skip(i as int),
                high as int,
                mid as int,
            ),
        decreases tasks@.len() - i,
    {
        proof {
            assert(tasks@.skip(i as int)[0] == tasks@[i as int]);
            assert(tasks@.skip(i as int).drop_first() =~= tasks@.skip(i + 1 as int));
        }
        let ghost prev_calls = calls@;
        match tasks[i].get_priority() {
            Priority::Low => {},
            Priority::Mid => {
                calls.push(ReorderCall { id: tasks[i].id.clone(), index: mid });
                mid += 1;
                proof {
                    assert(calls@ =~= prev_calls + seq![
                        ReorderCall { id: tasks@[i as int].id, index: (mid - 1) as usize },
                    ]);
                }
            },
            Priority::High => {
                calls.push(ReorderCall { id: tasks[i].id.clone(), index: high });
                high += 1;
                mid += 1;
                proof {
                    assert(calls@ =~= prev_calls + seq![
                        ReorderCall { id: tasks@[i as int].id, index: (high - 1) as usize },
                    ]);
                }
            },
        }
        i += 1;
        proof {
            assert(calls@ + spec_plan(tasks@.skip(i as int), high as int, mid as int)
                =~= spec_plan(tasks@, 0, 0));
        }
    }
    proof {
        assert(tasks@.skip(tasks@.len() as int) =~= Seq::<Task>::empty());
        assert(calls@ =~= calls@ + Seq::<ReorderCall>::empty());
    }
    calls
}

/// How many tasks of a sequence are High tier.
pub open spec fn n_high(ts: Seq<Task>) -> int
    decreases ts.len(),
{
    if ts.len() == 0 {
        0
    } else {
        (if spec_tier(ts[0].difficulty) is High {
            1int
        } else {
            0int
        }) + n_high(ts.drop_first())
    }
}

/// How many tasks of a sequence are High or Mid tier — exactly the calls a
/// plan for it issues.
pub open spec fn n_high_mid(ts: Seq<Task>) -> int
    decreases ts.len(),
{
    if ts.len() == 0 {
        0
    } else {
        (if spec_tier(ts[0].difficulty) is Low {
            0int
        } else {
            1int
        }) + n_high_mid(ts.drop_first())
    }
}

/// A plan holds one call per High- or Mid-tier task.
pub proof fn lemma_plan_len(ts: Seq<Task>, high: int, mid: int)
    ensures
        spec_plan(ts, high, mid).len() == n_high_mid(ts),
    decreases ts.len(),
{
    if ts.len() > 0 {
        match spec_tier(ts[0].difficulty) {
            Priority::Low => lemma_plan_len(ts.drop_first(), high, mid),
            Priority::Mid => lemma_plan_len(ts.drop_first(), high, mid + 1),
            Priority::High => lemma_plan_len(ts.drop_first(), high + 1, mid + 1),
        }
    }
}

/// Law: the plan is exactly one call per High- or Mid-tier task, in the
/// input order. The call for the task at position `i` stands at plan
/// position `n_high_mid(ts.take(i))`, carries that task's id, and sends a
/// High task to slot `high + (the High tasks before it)` and a Mid task to
/// slot `mid + (the High and Mid tasks before it)`; Low tasks get no call.
/// With both counters started at zero, High tasks are sent to slots 0, 1,
/// 2, ... in their original relative order.
pub proof fn lemma_plan_characterization(ts: Seq<Task>, high: int, mid: int)
    requires
        0 <= high,
        0 <= mid,
        high + ts.len() <= usize::MAX,
        mid + ts.len() <= usize::MAX,
    ensures
        forall|i: int|
            0 <= i < ts.len() && !(spec_tier(ts[i].difficulty) is Low) ==> spec_plan(
                ts,
                high,
                mid,
            )[n_high_mid(ts.take(i))] == (ReorderCall {
                id: ts[i].id,
                index: (if spec_tier(ts[i].difficulty) is High {
                    high + n_high(ts.take(i))
                } else {
                    mid + n_high_mid(ts.take(i))
                }) as usize,
            }),
    decreases ts.len(),
{
    if ts.len() > 0 {
        let d = ts.drop_first();
        let head_tier = spec_tier(ts[0].difficulty);
        match head_tier {
            Priority::Low => {
                lemma_plan_characterization(d, high, mid);
            },
            Priority::Mid => {
                lemma_plan_characterization(d, high, mid + 1);
                lemma_plan_len(d, high, mid + 1);
            },
            Priority::High => {
                lemma_plan_characterization(d, high + 1, mid + 1);
                lemma_plan_len(d, high + 1, mid + 1);
            },
        }
        assert forall|i: int|
            0 <= i < ts.len() && !(spec_tier(ts[i].difficulty) is Low) implies spec_plan(
            ts,
            high,
            mid,
        )[n_high_mid(ts.take(i))] == (ReorderCall {
            id: ts[i].id,
            index: (if spec_tier(ts[i].difficulty) is High {
                high + n_high(ts.take(i))
            } else {
                mid + n_high_mid(ts.take(i))
            }) as usize,
        }) by {
            if i == 0 {
                assert(ts.take(0) =~= Seq::<Task>::empty());
                assert(n_high_mid(ts.take(0)) == 0);
                assert(n_high(ts.take(0)) == 0);
                match head_tier {
                    Priority::Low => {},
                    Priority::Mid => {
                        assert(spec_plan(ts, high, mid)[0] == ReorderCall {
                            id: ts[0].id,
                            index: mid as usize,
                        });
                    },
                    Priority::High => {
                        assert(spec_plan(ts, high, mid)[0] == ReorderCall {
                            id: ts[0].id,
                            index: high as usize,
                        });
                    },
                }
            } else {
                assert(ts.take(i).drop_first() =~= d.take(i - 1));
                assert(ts.take(i)[0] == ts[0]);
                assert(d[i - 1] == ts[i]);
                lemma_n_high_mid_bounds(d.take(i - 1));
                lemma_n_high_mid_take_lt(d, i - 1);
                let k = n_high_mid(d.take(i - 1));
                let goal_d = ReorderCall {
                    id: d[i - 1].id,
                    index: (if spec_tier(d[i - 1].difficulty) is High {
                        (high + (if head_tier is High {
                            1int
                        } else {
                            0int
                        })) + n_high(d.take(i - 1))
                    } else {
                        (mid + (if head_tier is Low {
                            0int
                        } else {
                            1int
                        })) + n_high_mid(d.take(i - 1))
                    }) as usize,
                };
                match head_tier {
                    Priority::Low => {
                        assert(spec_plan(ts, high, mid) == spec_plan(d, high, mid));
                        assert(spec_plan(d, high, mid)[k] == goal_d);
                        assert(n_high_mid(ts.take(i)) == k);
                        assert(n_high(ts.take(i)) == n_high(d.take(i - 1)));
                    },
                    Priority::Mid => {
                        assert(spec_plan(ts, high, mid) == seq![
                            ReorderCall { id: ts[0].id, index: mid as usize },
                        ] + spec_plan(d, high, mid + 1));
                        assert(spec_plan(d, high, mid + 1)[k] == goal_d);
                        assert(spec_plan(ts, high, mid)[1 + k] == spec_plan(d, high, mid + 1)[k]);
                        assert(n_high_mid(ts.take(i)) == 1 + k);
                        assert(n_high(ts.take(i)) == n_high(d.take(i - 1)));
                    },
                    Priority::High => {
                        assert(spec_plan(ts, high, mid) == seq![
                            ReorderCall { id: ts[0].id, index: high as usize },
                        ] + spec_plan(d, high + 1, mid + 1));
                        assert(spec_plan(d, high + 1, mid + 1)[k] == goal_d);
                        assert(spec_plan(ts, high, mid)[1 + k] == spec_plan(
                            d,
                            high + 1,
                            mid + 1,
                        )[k]);
                        assert(n_high_mid(ts.take(i)) == 1 + k);
                        assert(n_high(ts.take(i)) == 1 + n_high(d.take(i - 1)));
                    },
                }
            }
        }
    }
}

/// A High- or Mid-tier task at position `j` makes the call count of the
/// whole sequence exceed that of the prefix before `j`.
proof fn lemma_n_high_mid_take_lt(s: Seq<Task>, j: int)
    requires
        0 <= j < s.len(),
        !(spec_tier(s[j].difficulty) is Low),
    ensures
        n_high_mid(s.take(j)) < n_high_mid(s),
    decreases j,
{
    lemma_n_high_mid_bounds(s.drop_first());
    if j == 0 {
        assert(s.take(0) =~= Seq::<Task>::empty());
    } else {
        assert(s.take(j).drop_first() =~= s.drop_first().take(j - 1));
        assert(s.take(j)[0] == s[0]);
        assert(s.drop_first()[j - 1] == s[j]);
        lemma_n_high_mid_take_lt(s.drop_first(), j - 1);
    }
}

/// The tier counts of a sequence lie between zero and its length.
proof fn lemma_n_high_mid_bounds(ts: Seq<Task>)
    ensures
        0 <= n_high(ts) <= ts.len(),
        0 <= n_high_mid(ts) <= ts.len(),
    decreases ts.len(),
{
    if ts.len() > 0 {
        lemma_n_high_mid_bounds(ts.drop_first());
    }
}

/// What one `reorder` call does to a list under the local backend's
/// semantics: the first task carrying the id moves to the clamped target
/// index, and an unknown id fails.
pub open spec fn spec_reorder_step(ts: Seq<Task>, c: ReorderCall) -> Option<Seq<Task>> {
    if has_task(ts, c.id@) {
        let i = choose|i: int| is_first_match(ts, c.id@, i);
        Some(ts.remove(i).insert(spec_clamp(c.index as int, ts.len() - 1), ts[i]))
    } else {
        None
    }
}

/// What a whole call sequence does to a list, call by call, stopping at the
/// first failure.
pub open spec fn spec_apply_calls(ts: Seq<Task>, calls: Seq<ReorderCall>) -> Option<Seq<Task>>
    decreases calls.len(),
{
    if calls.len() == 0 {
        Some(ts)
    } else {
        match spec_reorder_step(ts, calls[0]) {
            Some(ts2) => spec_apply_calls(ts2, calls.drop_first()),
            None => None,
        }
    }
}

/// A list that holds an id at all holds a first match for it.
proof fn lemma_has_first_match(s: Seq<Task>, id: Seq<char>)
    requires
        has_task(s, id),
    ensures
        exists|i: int| is_first_match(s, id, i),
    decreases s.len(),
{
    if s[0].id@ == id {
        assert(is_first_match(s, id, 0));
    } else {
        let w = choose|w: int| 0 <= w < s.len() && s[w].id@ == id;
        assert(s.drop_first()[w - 1] == s[w]);
        lemma_has_first_match(s.drop_first(), id);
        let j = choose|j: int| is_first_match(s.drop_first(), id, j);
        assert forall|k: int| 0 <= k < j + 1 implies s[k].id@ != id by {
            if k > 0 {
                assert(s.drop_first()[k - 1] == s[k]);
            }
        }
        assert(s[j + 1] == s.drop_first()[j]);
        assert(is_first_match(s, id, j + 1));
    }
}

/// Applying one more call at the end of a sequence applies the sequence and
/// then that call.
proof fn lemma_apply_calls_snoc(ts: Seq<Task>, calls: Seq<ReorderCall>, c: ReorderCall)
    ensures
        spec_apply_calls(ts, calls.push(c)) == match spec_apply_calls(ts, calls) {
            Some(m) => spec_reorder_step(m, c),
            None => None,
        },
    decreases calls.len(),
{
    let p = calls.push(c);
    if calls.len() == 0 {
        assert(p[0] == c);
        assert(p.drop_first() =~= Seq::<ReorderCall>::empty());
        match spec_reorder_step(ts, c) {
            Some(m) => {
                assert(spec_apply_calls(ts, p) == spec_apply_calls(m, p.drop_first()));
                assert(spec_apply_calls(m, p.drop_first()) == Some(m));
                assert(spec_apply_calls(ts, calls) == Some(ts));
            },
            None => {
                assert(spec_apply_calls(ts, p) is None);
            },
        }
    } else {
        assert(p[0] == calls[0]);
        assert(p.drop_first() =~= calls.drop_first().push(c));
        match spec_reorder_step(ts, calls[0]) {
            Some(ts2) => {
                lemma_apply_calls_snoc(ts2, calls.drop_first(), c);
                assert(spec_apply_calls(ts, p) == spec_apply_calls(ts2, p.drop_first()));
                assert(spec_apply_calls(ts, calls) == spec_apply_calls(ts2, calls.drop_first()));
            },
            None => {
                assert(spec_apply_calls(ts, p) is None);
                assert(spec_apply_calls(ts, calls) is None);
            },
        }
    }
}

/// Apply a computed plan to the local backend's list, one call at a time, in
/// order. The pass stops at the first call whose id is absent, surfacing
/// `NotFound`; the reorders already applied are not undone.
pub fn apply_reorder_plan(tasks: &mut Vec<Task>, calls: &Vec<ReorderCall>) -> (r: Result<
    (),
    Error,
>)
    ensures
        r is Ok ==> spec_apply_calls(old(tasks)@, calls@) == Some(final(tasks)@),
        r is Err ==> (r matches Err(e) && e is NotFound) && spec_apply_calls(old(tasks)@, calls@)
            is None && exists|k: int|
            0 <= k < calls@.len() && spec_apply_calls(old(tasks)@, calls@.take(k)) == Some(
                final(tasks)@,
            ) && !has_task(final(tasks)@, calls@[k].id@),
{
    let mut i: usize = 0;
    proof {
        assert(calls@.take(0) =~= Seq::<ReorderCall>::empty());
    }
    while i < calls.len()
        invariant
            i <= calls@.len(),
            spec_apply_calls(old(tasks)@, calls@.take(i as int)) == Some(tasks@),
        decreases calls@.len() - i,
    {
        let ghost prev = tasks@;
        let res = local::reorder_task(tasks, &calls[i].id, calls[i].index);
        proof {
            lemma_apply_calls_snoc(old(tasks)@, calls@.take(i as int), calls@[i as int]);
            assert(calls@.take(i as int).push(calls@[i as int]) =~= calls@.take(i + 1 as int));
        }
        match res {
            Ok(_) => {
                proof {
                    assert(has_task(prev, calls@[i as int].id@));
                    lemma_has_first_match(prev, calls@[i as int].id@);
                    let j = choose|j: int| is_first_match(prev, calls@[i as int].id@, j);
                    assert(is_first_match(prev, calls@[i as int].id@, j));
                    assert(spec_reorder_step(prev, calls@[i as int]) == Some(tasks@));
                }
                i += 1;
            },
            Err(e) => {
                proof {
                    assert(spec_reorder_step(prev, calls@[i as int]) is None);
                    assert(spec_apply_calls(old(tasks)@, calls@.take(i + 1 as int)) is None);
                    lemma_apply_calls_none(old(tasks)@, calls@, i + 1);
                }
                return Err(e);
            },
        }
    }
    proof {
        assert(calls@.take(calls@.len() as int) =~= calls@);
    }
    Ok(())
}

/// No two tasks of the sequence carry the same id.
pub open spec fn unique_ids(s: Seq<Task>) -> bool {
    forall|i: int, j: int| 0 <= i < j < s.len() ==> s[i].id@ != s[j].id@
}

/// The tasks of one priority tier, in their original relative order.
pub open spec fn tier_seq(ts: Seq<Task>, p: Priority) -> Seq<Task>
    decreases ts.len(),
{
    if ts.len() == 0 {
        Seq::<Task>::empty()
    } else {
        (if spec_tier(ts[0].difficulty) == p {
            seq![ts[0]]
        } else {
            Seq::<Task>::empty()
        }) + tier_seq(ts.drop_first(), p)
    }
}

/// Removing a task keeps the remaining ids distinct.
proof fn lemma_unique_remove(s: Seq<Task>, i: int)
    requires
        0 <= i < s.len(),
        unique_ids(s),
    ensures
        unique_ids(s.remove(i)),
{
    let r = s.remove(i);
    assert forall|a: int, b: int| 0 <= a < b < r.len() implies r[a].id@ != r[b].id@ by {
        let a2 = if a < i {
            a
        } else {
            a + 1
        };
        let b2 = if b < i {
            b
        } else {
            b + 1
        };
        assert(r[a] == s[a2] && r[b] == s[b2]);
    }
}

/// Inserting a task whose id is absent keeps the ids distinct.
proof fn lemma_unique_insert(s: Seq<Task>, i: int, t: Task)
    requires
        0 <= i <= s.len(),
        unique_ids(s),
        forall|j: int| 0 <= j < s.len() ==> s[j].id@ != t.id@,
    ensures
        unique_ids(s.insert(i, t)),
{
    let r = s.insert(i, t);
    assert forall|a: int, b: int| 0 <= a < b < r.len() implies r[a].id@ != r[b].id@ by {
        if a != i && b != i {
            let a2 = if a < i {
                a
            } else {
                a - 1
            };
            let b2 = if b < i {
                b
            } else {
                b - 1
            };
            assert(r[a] == s[a2] && r[b] == s[b2]);
        } else if a == i {
            assert(r[a] == t && r[b] == s[b - 1]);
        } else {
            assert(r[b] == t && r[a] == s[a]);
        }
    }
}

/// The scan invariant behind the partition law: with the already placed High
/// tasks `h`, the placed Mid tasks `m`, the skipped Low tasks `l` and the
/// unscanned suffix `suf`, applying the suffix's plan — its counters started
/// at the sizes of the placed regions — front-loads the suffix's High and
/// Mid tasks into those regions in scan order.
#[verifier::rlimit(100)]
proof fn lemma_apply_plan_general(h: Seq<Task>, m: Seq<Task>, l: Seq<Task>, suf: Seq<Task>)
    requires
        unique_ids(h + m + l + suf),
        (h + m + l + suf).len() <= usize::MAX,
    ensures
        spec_apply_calls(
            h + m + l + suf,
            spec_plan(suf, h.len() as int, (h.len() + m.len()) as int),
        ) == Some(
            h + tier_seq(suf, Priority::High) + m + tier_seq(suf, Priority::Mid) + l + tier_seq(
                suf,
                Priority::Low,
            ),
        ),
    decreases suf.len(),
{
    let list = h + m + l + suf;
    if suf.len() == 0 {
        assert(spec_plan(suf, h.len() as int, (h.len() + m.len()) as int)
            =~= Seq::<ReorderCall>::empty());
        assert(h + tier_seq(suf, Priority::High) + m + tier_seq(suf, Priority::Mid) + l
            + tier_seq(suf, Priority::Low) =~= list);
    } else {
        let t = suf[0];
        let suf2 = suf.drop_first();
        let pos = (h.len() + m.len() + l.len()) as int;
        assert(list[pos] == t);
        let plan = spec_plan(suf, h.len() as int, (h.len() + m.len()) as int);
        match spec_tier(t.difficulty) {
            Priority::Low => {
                assert(list =~= h + m + (l + seq![t]) + suf2);
                lemma_apply_plan_general(h, m, l + seq![t], suf2);
                assert(tier_seq(suf, Priority::High) == tier_seq(suf2, Priority::High));
                assert(tier_seq(suf, Priority::Mid) == tier_seq(suf2, Priority::Mid));
                assert(tier_seq(suf, Priority::Low) =~= seq![t] + tier_seq(suf2, Priority::Low));
                assert(h + tier_seq(suf, Priority::High) + m + tier_seq(suf, Priority::Mid) + l
                    + tier_seq(suf, Priority::Low) =~= h + tier_seq(suf2, Priority::High) + m
                    + tier_seq(suf2, Priority::Mid) + (l + seq![t]) + tier_seq(
                    suf2,
                    Priority::Low,
                ));
            },
            Priority::High => {
                let c = ReorderCall { id: t.id, index: h.len() as usize };
                assert(plan == seq![c] + spec_plan(suf2, h.len() as int + 1, (h.len() + m.len()) as int + 1));
                lemma_step_moves(h, m, l, suf, h.len() as int);
                let next = (h + seq![t]) + m + l + suf2;
                assert(spec_reorder_step(list, c) == Some(next));
                assert(unique_ids(next) && next.len() <= usize::MAX) by {
                    lemma_unique_remove(list, pos);
                    assert forall|j: int|
                        0 <= j < list.remove(pos).len() implies list.remove(pos)[j].id@
                        != t.id@ by {
                        let j2 = if j < pos {
                            j
                        } else {
                            j + 1
                        };
                        assert(list.remove(pos)[j] == list[j2]);
                    }
                    lemma_unique_insert(list.remove(pos), h.len() as int, t);
                    assert(next =~= list.remove(pos).insert(h.len() as int, t));
                }
                lemma_apply_plan_general(h + seq![t], m, l, suf2);
                assert((h + seq![t]).len() == h.len() + 1);
                assert(seq![c].add(spec_plan(suf2, h.len() as int + 1, (h.len() + m.len()) as int + 1))
                    .drop_first() =~= spec_plan(suf2, h.len() as int + 1, (h.len() + m.len()) as int + 1));
                assert(tier_seq(suf, Priority::High) =~= seq![t] + tier_seq(suf2, Priority::High));
                assert(tier_seq(suf, Priority::Mid) == tier_seq(suf2, Priority::Mid));
                assert(tier_seq(suf, Priority::Low) == tier_seq(suf2, Priority::Low));
                assert(h + tier_seq(suf, Priority::High) + m + tier_seq(suf, Priority::Mid) + l
                    + tier_seq(suf, Priority::Low) =~= (h + seq![t]) + tier_seq(
                    suf2,
                    Priority::High,
                ) + m + tier_seq(suf2, Priority::Mid) + l + tier_seq(suf2, Priority::Low));
            },
            Priority::Mid => {
                let c = ReorderCall { id: t.id, index: (h.len() + m.len()) as usize };
                assert(plan == seq![c] + spec_plan(
                    suf2,
                    h.len() as int,
                    (h.len() + m.len()) as int + 1,
                ));
                lemma_step_moves(h, m, l, suf, (h.len() + m.len()) as int);
                let next = h + (m + seq![t]) + l + suf2;
                assert(h + (m + seq![t]) + l + suf2 =~= (h + m + seq![t]) + l + suf2);
                assert(spec_reorder_step(list, c) == Some(next));
                assert(unique_ids(next) && next.len() <= usize::MAX) by {
                    lemma_unique_remove(list, pos);
                    assert forall|j: int|
                        0 <= j < list.remove(pos).len() implies list.remove(pos)[j].id@
                        != t.id@ by {
                        let j2 = if j < pos {
                            j
                        } else {
                            j + 1
                        };
                        assert(list.remove(pos)[j] == list[j2]);
                    }
                    lemma_unique_insert(list.remove(pos), (h.len() + m.len()) as int, t);
                    assert(next =~= list.remove(pos).insert((h.len() + m.len()) as int, t));
                }
                lemma_apply_plan_general(h, m + seq![t], l, suf2);
                assert((m + seq![t]).len() == m.len() + 1);
                assert(seq![c].add(spec_plan(suf2, h.len() as int, (h.len() + m.len()) as int + 1))
                    .drop_first() =~= spec_plan(suf2, h.len() as int, (h.len() + m.len()) as int + 1));
                assert(tier_seq(suf, Priority::Mid) =~= seq![t] + tier_seq(suf2, Priority::Mid));
                assert(tier_seq(suf, Priority::High) == tier_seq(suf2, Priority::High));
                assert(tier_seq(suf, Priority::Low) == tier_seq(suf2, Priority::Low));
                assert(h + tier_seq(suf, Priority::High) + m + tier_seq(suf, Priority::Mid) + l
                    + tier_seq(suf, Priority::Low) =~= h + tier_seq(suf2, Priority::High) + (m
                    + seq![t]) + tier_seq(suf2, Priority::Mid) + l + tier_seq(
                    suf2,
                    Priority::Low,
                ));
            },
        }
    }
}

/// One planned call on the partitioned list moves the suffix's first task to
/// the end of its region: the step on `(t.id, k)` — `k` the boundary of the
/// region, at or left of the task's position — removes the task and reinserts
/// it at `k`.
proof fn lemma_step_moves(h: Seq<Task>, m: Seq<Task>, l: Seq<Task>, suf: Seq<Task>, k: int)
    requires
        unique_ids(h + m + l + suf),
        (h + m + l + suf).len() <= usize::MAX,
        suf.len() > 0,
        0 <= k <= h.len() + m.len(),
    ensures
        spec_reorder_step(
            h + m + l + suf,
            ReorderCall { id: suf[0].id, index: k as usize },
        ) == Some((h + m + l + suf).remove((h.len() + m.len() + l.len()) as int).insert(k, suf[0])),
{
    let list = h + m + l + suf;
    let t = suf[0];
    let pos = (h.len() + m.len() + l.len()) as int;
    assert(list[pos] == t);
    assert(is_first_match(list, t.id@, pos)) by {
        assert forall|j: int| 0 <= j < pos implies list[j].id@ != t.id@ by {
            assert(list[j].id@ != list[pos].id@);
        }
    }
    assert(has_task(list, t.id@));
    let j = choose|j: int| is_first_match(list, t.id@, j);
    assert(is_first_match(list, t.id@, j));
    assert(j == pos) by {
        if j < pos {
            assert(list[j].id@ != t.id@);
        } else if j > pos {
            assert(list[pos].id@ != t.id@);
        }
    }
    assert(k as usize as int == k);
    assert(spec_clamp(k, list.len() - 1) == k);
}

/// Law: on a list whose task ids are all distinct, applying the computed
/// plan succeeds and leaves all High-tier tasks first, then all Mid-tier
/// tasks, then the Low-tier rest, each group keeping the original relative
/// order of its tasks — the plan is a single front-loading pass.
pub proof fn lemma_reorder_partition(ts: Seq<Task>)
    requires
        unique_ids(ts),
        ts.len() <= usize::MAX,
    ensures
        spec_apply_calls(ts, spec_plan(ts, 0, 0)) == Some(
            tier_seq(ts, Priority::High) + tier_seq(ts, Priority::Mid) + tier_seq(
                ts,
                Priority::Low,
            ),
        ),
{
    let e = Seq::<Task>::empty();
    assert(e + e + e + ts =~= ts);
    lemma_apply_plan_general(e, e, e, ts);
    assert(e + tier_seq(ts, Priority::High) + e + tier_seq(ts, Priority::Mid) + e + tier_seq(
        ts,
        Priority::Low,
    ) =~= tier_seq(ts, Priority::High) + tier_seq(ts, Priority::Mid) + tier_seq(
        ts,
        Priority::Low,
    ));
}

/// Once a prefix of the call sequence already fails, the whole sequence
/// fails.
proof fn lemma_apply_calls_none(ts: Seq<Task>, calls: Seq<ReorderCall>, k: int)
    requires
        0 <= k <= calls.len(),
        spec_apply_calls(ts, calls.take(k)) is None,
    ensures
        spec_apply_calls(ts, calls) is None,
    decreases calls.len(),
{
    if calls.len() == 0 {
        assert(calls.take(k) =~= calls);
    } else if k == 0 {
        assert(calls.take(0) =~= Seq::<ReorderCall>::empty());
    } else {
        assert(calls.take(k)[0] == calls[0]);
        match spec_reorder_step(ts, calls[0]) {
            Some(ts2) => {
                assert(calls.take(k).drop_first() =~= calls.drop_first().take(k - 1));
                lemma_apply_calls_none(ts2, calls.drop_first(), k - 1);
            },
            None => {},
        }
    }
}

} // verus!
