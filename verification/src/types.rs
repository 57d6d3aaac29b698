//! The canonical task record shared by both backends and the reordering
//! engine, together with its small helpers: the opaque task identifier, the
//! checklist item, the command-line operation shapes, and the display
//! rendering of a task.

use vstd::prelude::*;
use vstd::string::StringExecFns;

use crate::codec::{spec_label, spec_tier, Difficulty, Priority};
use crate::date::{spec_format_date, valid_date, CalendarDate};
use crate::error::Error;

verus! {

/// An opaque unique task identifier. The empty value is a valid sentinel
/// meaning "not yet assigned by the backend"; backends fill the identifier
/// in on creation. Equality is by raw string value.
#[derive(Debug, Eq)]
pub struct TaskId(String);

impl View for TaskId {
    type V = Seq<char>;

    closed spec fn view(&self) -> Seq<char> {
        self.0@
    }
}

impl PartialEq for TaskId {
    fn eq(&self, other: &TaskId) -> (r: bool) {
        self.0 == other.0
    }
}

impl vstd::std_specs::cmp::PartialEqSpecImpl for TaskId {
    open spec fn obeys_eq_spec() -> bool {
        true
    }

    open spec fn eq_spec(&self, other: &TaskId) -> bool {
        self@ == other@
    }
}

impl Clone for TaskId {
    fn clone(&self) -> (r: Self)
        ensures
            r == *self,
    {
        TaskId(self.0.clone())
    }
}

impl TaskId {
    /// Wrap a raw identifier string.
    pub fn new(s: String) -> (r: TaskId)
        ensures
            r@ == s@,
    {
        TaskId(s)
    }

    /// The "not yet assigned" sentinel.
    pub fn empty() -> (r: TaskId)
        ensures
            r@ == Seq::<char>::empty(),
    {
        TaskId(String::new())
    }

    /// True exactly on the "not yet assigned" sentinel.
    pub fn is_empty(&self) -> (r: bool)
        ensures
            r == (self@.len() == 0),
    {
        self.0.as_str().is_empty()
    }

    /// The raw identifier string.
    pub fn as_str(&self) -> (r: &str)
        ensures
            r@ == self@,
    {
        self.0.as_str()
    }
}

/// An ordered checklist item: display text plus a completion flag. It has no
/// identity beyond its position in the checklist.
#[derive(Debug, Eq)]
pub struct SubTask {
    pub text: String,
    pub completed: bool,
}

impl PartialEq for SubTask {
    fn eq(&self, other: &SubTask) -> (r: bool) {
        self.text == other.text && self.completed == other.completed
    }
}

impl vstd::std_specs::cmp::PartialEqSpecImpl for SubTask {
    open spec fn obeys_eq_spec() -> bool {
        true
    }

    open spec fn eq_spec(&self, other: &SubTask) -> bool {
        self.text@ == other.text@ && self.completed == other.completed
    }
}

impl Clone for SubTask {
    fn clone(&self) -> (r: Self)
        ensures
            r == *self,
    {
        SubTask { text: self.text.clone(), completed: self.completed }
    }
}

/// The canonical task record. `task_type` is always `"todo"` for every
/// operation this library performs; the underlying service supports other
/// types but they are never produced or consumed here. `completed_at` is
/// used only by the completed-task store.
#[derive(Debug)]
pub struct Task {
    pub id: TaskId,
    pub text: String,
    pub task_type: String,
    pub difficulty: Difficulty,
    pub notes: Option<String>,
    pub date: Option<CalendarDate>,
    pub completed_at: Option<i64>,
    pub checklist: Option<Vec<SubTask>>,
}

/// Field-for-field sameness of two tasks. All fields compare by value; the
/// checklist compares by its sequence of items, so a task and its clone are
/// the same in this sense.
pub open spec fn spec_task_eq(a: Task, b: Task) -> bool {
    &&& a.id == b.id
    &&& a.text == b.text
    &&& a.task_type == b.task_type
    &&& a.difficulty == b.difficulty
    &&& a.notes == b.notes
    &&& a.date == b.date
    &&& a.completed_at == b.completed_at
    &&& match (a.checklist, b.checklist) {
        (None, None) => true,
        (Some(x), Some(y)) => x@ == y@,
        _ => false,
    }
}

/// Copy a checklist item for item.
pub fn clone_subtasks(v: &Vec<SubTask>) -> (r: Vec<SubTask>)
    ensures
        r@ == v@,
{
    let mut r: Vec<SubTask> = Vec::new();
    let mut i: usize = 0;
    while i < v.len()
        invariant
            i <= v@.len(),
            r@ == v@.subrange(0, i as int),
        decreases v@.len() - i,
    {
        r.push(v[i].clone());
        proof {
            assert(r@ =~= v@.subrange(0, i + 1 as int));
        }
        i += 1;
    }
    proof {
        assert(v@.subrange(0, v@.len() as int) =~= v@);
    }
    r
}

impl Clone for Task {
    fn clone(&self) -> (r: Self)
        ensures
            spec_task_eq(r, *self),
    {
        Task {
            id: self.id.clone(),
            text: self.text.clone(),
            task_type: self.task_type.clone(),
            difficulty: self.difficulty,
            notes: match &self.notes {
                Some(n) => Some(n.clone()),
                None => None,
            },
            date: self.date,
            completed_at: self.completed_at,
            checklist: match &self.checklist {
                Some(cl) => Some(clone_subtasks(cl)),
                None => None,
            },
        }
    }
}

/// Well-formedness of a task as this library produces and consumes it: the
/// task type is the constant `"todo"`, and a due date, when present, is a
/// valid calendar date.
pub open spec fn task_wf(t: Task) -> bool {
    &&& t.task_type@ == "todo"@
    &&& match t.date {
        Some(d) => valid_date(d),
        None => true,
    }
}

impl Task {
    /// Which priority tier the record falls in; see [`spec_tier`] for the
    /// grouping.
    pub fn get_priority(&self) -> (p: Priority)
        ensures
            p == spec_tier(self.difficulty),
    {
        self.difficulty.tier()
    }
}

impl Default for Task {
    /// A freshly user-authored task: no identifier yet, empty text, the
    /// constant `"todo"` type, `Easy` difficulty, and no optional parts.
    fn default() -> (r: Task)
        ensures
            r.id@ == Seq::<char>::empty(),
            r.text@ == Seq::<char>::empty(),
            r.task_type@ == "todo"@,
            r.difficulty == Difficulty::Easy,
            r.notes is None,
            r.date is None,
            r.completed_at is None,
            r.checklist is None,
            task_wf(r),
    {
        Task {
            id: TaskId::empty(),
            text: String::new(),
            task_type: String::from_str("todo"),
            difficulty: Difficulty::Easy,
            notes: None,
            date: None,
            completed_at: None,
            checklist: None,
        }
    }
}

/// The interactive checklist prompt's item preview: the raw text behind an
/// unchecked box.
pub fn checklist_item_formatter(i: &str) -> (r: String)
    ensures
        r@ == "[] "@ + i@,
{
    let mut s = String::new();
    s.append("[] ");
    s.append(i);
    s
}

/// Empty prompted notes mean "no notes".
pub fn normalize_notes(notes: String) -> (r: Option<String>)
    ensures
        notes@.len() == 0 ==> r is None,
        notes@.len() > 0 ==> r == Some(notes),
{
    if notes.as_str().is_empty() {
        None
    } else {
        Some(notes)
    }
}

/// An empty prompted checklist means "no checklist".
pub fn finish_checklist(items: Vec<SubTask>) -> (r: Option<Vec<SubTask>>)
    ensures
        items@.len() == 0 ==> r is None,
        items@.len() > 0 ==> r == Some(items),
{
    if items.is_empty() {
        None
    } else {
        Some(items)
    }
}

/// One rendered checklist line: a completion glyph and the item's text on a
/// fresh line.
pub open spec fn spec_subtask_line(st: SubTask) -> Seq<char> {
    "\n"@ + (if st.completed {
        "[x] "@
    } else {
        "[ ] "@
    }) + st.text@
}

/// The rendered lines of a whole checklist, in order.
pub open spec fn spec_checklist_text(s: Seq<SubTask>) -> Seq<char>
    decreases s.len(),
{
    if s.len() == 0 {
        Seq::<char>::empty()
    } else {
        spec_subtask_line(s[0]) + spec_checklist_text(s.drop_first())
    }
}

/// The display form of a task: its text and difficulty label, then the
/// optional notes, the optional due date in ISO form, and the checklist with
/// per-item completion glyphs, one part per line.
pub open spec fn spec_display_task(t: Task) -> Seq<char> {
    t.text@ + " ["@ + spec_label(t.difficulty) + "]"@ + (match t.notes {
        Some(n) => "\n"@ + n@,
        None => Seq::<char>::empty(),
    }) + (match t.date {
        Some(d) => "\n"@ + spec_format_date(d),
        None => Seq::<char>::empty(),
    }) + (match t.checklist {
        Some(cl) => spec_checklist_text(cl@),
        None => Seq::<char>::empty(),
    }) + "\n"@
}

/// Render the checklist items from position `i` on.
fn checklist_text(cl: &Vec<SubTask>, i: usize) -> (r: String)
    requires
        i <= cl@.len(),
    ensures
        r@ == spec_checklist_text(cl@.skip(i as int)),
    decreases cl@.len() - i,
{
    if i == cl.len() {
        proof {
            assert(cl@.skip(i as int) =~= Seq::<SubTask>::empty());
        }
        String::new()
    } else {
        let mut s = String::new();
        s.append("\n");
        if cl[i].completed {
            s.append("[x] ");
        } else {
            s.append("[ ] ");
        }
        s.append(cl[i].text.as_str());
        let rest = checklist_text(cl, i + 1);
        let out = s.concat(rest.as_str());
        proof {
            assert(cl@.skip(i as int)[0] == cl@[i as int]);
            assert(cl@.skip(i as int).drop_first() =~= cl@.skip(i + 1 as int));
            assert(out@ =~= spec_checklist_text(cl@.skip(i as int)));
        }
        out
    }
}

impl Task {
    /// Render the record for the terminal; see [`spec_display_task`] for the
    /// exact text.
    pub fn display_string(&self) -> (r: String)
        requires
            match self.date {
                Some(d) => valid_date(d),
                None => true,
            },
        ensures
            r@ == spec_display_task(*self),
    {
        let mut s = self.text.clone();
        s.append(" [");
        let label = self.difficulty.label();
        s.append(label.as_str());
        s.append("]");
        match &self.notes {
            Some(n) => {
                s.append("\n");
                s.append(n.as_str());
            },
            None => {},
        }
        match &self.date {
            Some(d) => {
                s.append("\n");
                let ds = crate::date::format_date(d);
                s.append(ds.as_str());
            },
            None => {},
        }
        match &self.checklist {
            Some(cl) => {
                let ct = checklist_text(cl, 0);
                s.append(ct.as_str());
                proof {
                    assert(cl@.skip(0) =~= cl@);
                }
            },
            None => {},
        }
        s.append("\n");
        proof {
            assert(s@ =~= spec_display_task(*self));
        }
        s
    }
}

/// The two collections a backend can be asked for: the open todos or the
/// completed ones.
#[derive(Debug, Clone, Copy, PartialEq, Eq, Structural)]
pub enum TaskKind {
    Todos,
    CompletedTodos,
}

/// The wire name of each collection kind.
pub open spec fn spec_kind_str(k: TaskKind) -> Seq<char> {
    match k {
        TaskKind::Todos => "todos"@,
        TaskKind::CompletedTodos => "completedTodos"@,
    }
}

impl TaskKind {
    /// The wire name of this collection kind.
    pub fn as_str(self) -> (r: &'static str)
        ensures
            r@ == spec_kind_str(self),
    {
        match self {
            TaskKind::Todos => "todos",
            TaskKind::CompletedTodos => "completedTodos",
        }
    }
}

/// Parse a collection kind from its wire name. Exactly the two defined names
/// are accepted; an undefined kind is a malformed request.
pub fn parse_task_kind(s: &str) -> (r: Result<TaskKind, Error>)
    ensures
        match r {
            Ok(k) => s@ == spec_kind_str(k),
            Err(e) => e is Malformed && s@ != "todos"@ && s@ != "completedTodos"@,
        },
{
    if crate::codec::str_eq(s, "todos") {
        Ok(TaskKind::Todos)
    } else if crate::codec::str_eq(s, "completedTodos") {
        Ok(TaskKind::CompletedTodos)
    } else {
        Err(Error::Malformed)
    }
}

/// The one-shot operations the binary can run, mirrored here as plain data:
/// listing the open tasks (optionally saving the raw payload), listing the
/// completed ones, creating a task from an optional compact descriptor, and
/// the priority reorder pass.
#[derive(Debug)]
pub enum Operation {
    List { save_json: bool },
    History,
    Task { descriptor: Option<String> },
    Reorder,
}

/// The parsed command line: an optional operation plus the verbosity and
/// debug flags.
#[derive(Debug)]
pub struct Cli {
    pub operation: Option<Operation>,
    pub verbose: bool,
    pub debug: bool,
}

} // verus!
