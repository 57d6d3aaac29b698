//! The local-file and remote wire shape of a task, as plain values: the
//! field names differ from the canonical record (`_id`, `type`, `priority`),
//! the difficulty travels as the priority value, and the due date travels as
//! ISO-8601 text. The surrounding binary serializes this shape to JSON
//! byte-for-byte; every mapping decision between the canonical record and
//! the wire shape is made and checked here.

use vstd::prelude::*;
use vstd::string::StringExecFns;

use crate::codec::{decode, encode, spec_decode, spec_encode, str_eq};
use crate::date::{format_date, parse_date, spec_format_date, valid_date, CalendarDate};
use crate::error::Error;
use crate::types::{clone_subtasks, task_wf, SubTask, Task, TaskId};

verus! {

/// The payload envelope of a fetched collection: `{"data": [...]}`.
#[derive(Debug)]
pub struct ArrayRes<T> {
    pub data: Vec<T>,
}

/// The payload envelope of a single record: `{"data": ...}`.
#[derive(Debug)]
pub struct SingleRes<T> {
    pub data: T,
}

/// A task as the wire carries it. The identifier and the optional due date
/// are plain strings, and the difficulty is the fixed-point priority value.
#[derive(Debug)]
pub struct WireTask {
    pub id: String,
    pub text: String,
    pub task_type: String,
    pub priority: i64,
    pub notes: Option<String>,
    pub date: Option<String>,
    pub completed_at: Option<i64>,
    pub checklist: Option<Vec<SubTask>>,
}

/// The exact relation between a canonical task and its wire form: every
/// plain field carries over unchanged, the difficulty is encoded to its
/// anchor value, and the due date is formatted as ISO-8601 text.
pub open spec fn wire_of(t: Task, w: WireTask) -> bool {
    &&& w.id@ == t.id@
    &&& w.text == t.text
    &&& w.task_type == t.task_type
    &&& w.priority == spec_encode(t.difficulty)
    &&& w.notes == t.notes
    &&& match (t.date, w.date) {
        (None, None) => true,
        (Some(d), Some(s)) => s@ == spec_format_date(d),
        _ => false,
    }
    &&& w.completed_at == t.completed_at
    &&& match (t.checklist, w.checklist) {
        (None, None) => true,
        (Some(a), Some(b)) => b@ == a@,
        _ => false,
    }
}

/// The exact relation between a wire form and the canonical task read back
/// from it: every plain field carries over unchanged, the priority value is
/// decoded by the tolerant rule, and the due date text is parsed back into a
/// valid calendar date.
pub open spec fn task_of(w: WireTask, t: Task) -> bool {
    &&& t.id@ == w.id@
    &&& t.text == w.text
    &&& t.task_type == w.task_type
    &&& t.difficulty == spec_decode(w.priority as int)
    &&& t.notes == w.notes
    &&& match (w.date, t.date) {
        (None, None) => true,
        (Some(s), Some(d)) => valid_date(d) && s@ == spec_format_date(d),
        _ => false,
    }
    &&& t.completed_at == w.completed_at
    &&& match (w.checklist, t.checklist) {
        (None, None) => true,
        (Some(a), Some(b)) => b@ == a@,
        _ => false,
    }
}

/// A wire form no canonical task can be read from: its type is not the one
/// task type this library produces and consumes, or its due date text is not
/// the formatted form of any valid date.
pub open spec fn wire_malformed(w: WireTask) -> bool {
    ||| w.task_type@ != "todo"@
    ||| (w.date matches Some(s) && forall|d: CalendarDate|
        valid_date(d) ==> s@ != spec_format_date(d))
}

/// Map a task to its wire form.
pub fn to_wire(t: &Task) -> (w: WireTask)
    requires
        t.date matches Some(d) ==> valid_date(d),
    ensures
        wire_of(*t, w),
{
    WireTask {
        id: t.id.as_str().to_owned(),
        text: t.text.clone(),
        task_type: t.task_type.clone(),
        priority: encode(t.difficulty),
        notes: match &t.notes {
            Some(n) => Some(n.clone()),
            None => None,
        },
        date: match &t.date {
            Some(d) => Some(format_date(d)),
            None => None,
        },
        completed_at: t.completed_at,
        checklist: match &t.checklist {
            Some(cl) => Some(clone_subtasks(cl)),
            None => None,
        },
    }
}

/// Read a task back from its wire form. Fails with `Malformed` exactly on
/// the malformed wire forms: a type other than `"todo"`, or an unparsable
/// due date.
pub fn from_wire(w: WireTask) -> (r: Result<Task, Error>)
    ensures
        match r {
            Ok(t) => task_of(w, t) && task_wf(t),
            Err(e) => e is Malformed && wire_malformed(w),
        },
{
    let WireTask { id, text, task_type, priority, notes, date, completed_at, checklist } = w;
    if !str_eq(task_type.as_str(), "todo") {
        return Err(Error::Malformed);
    }
    let parsed_date = match date {
        Some(s) => {
            match parse_date(s.as_str()) {
                Ok(d) => Some(d),
                Err(e) => {
                    return Err(e);
                },
            }
        },
        None => None,
    };
    Ok(
        Task {
            id: TaskId::new(id),
            text,
            task_type,
            difficulty: decode(priority),
            notes,
            date: parsed_date,
            completed_at,
            checklist,
        },
    )
}

/// Law: a well-formed task survives the round trip through its wire form
/// field for field — whatever maps it out and back under the two exact wire
/// relations yields the same identifier text, the same plain fields, the
/// same difficulty, the same due date, and the same checklist items.
pub proof fn lemma_wire_round_trip(t: Task, w: WireTask, t2: Task)
    requires
        task_wf(t),
        wire_of(t, w),
        task_of(w, t2),
    ensures
        t2.id@ == t.id@,
        t2.text == t.text,
        t2.task_type == t.task_type,
        t2.difficulty == t.difficulty,
        t2.notes == t.notes,
        t2.date == t.date,
        t2.completed_at == t.completed_at,
        match (t.checklist, t2.checklist) {
            (None, None) => true,
            (Some(a), Some(b)) => b@ == a@,
            _ => false,
        },
{
    crate::codec::lemma_encode_decode_round_trip(t.difficulty);
    match (t.date, w.date, t2.date) {
        (Some(d), Some(s), Some(d2)) => {
            crate::date::lemma_date_round_trip(d, d2);
        },
        _ => {},
    }
}

} // verus!
