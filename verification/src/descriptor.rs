//! The compact task descriptor: one line of the form
//! `<name>,<difficulty>,<notes>,<due>,<item>;<item>;...`, from which a fresh
//! task is built. The name and difficulty are required; the trailing parts
//! are optional, in that order. The built task has no identifier yet — the
//! backend that accepts it assigns one.

use vstd::prelude::*;
use vstd::string::StrSliceExecFns;
use vstd::string::StringExecFns;

use crate::codec::{parse_difficulty, spec_parse_difficulty};
use crate::date::{parse_date, spec_format_date, valid_date};
use crate::error::Error;
use crate::types::{task_wf, SubTask, Task, TaskId};

verus! {

/// Splitting at every occurrence of the separator, scanned from the front: a
/// string with no separator is one part, and each separator ends the part
/// before it. A split never has fewer than one part.
pub open spec fn spec_split(s: Seq<char>, sep: char) -> Seq<Seq<char>>
    decreases s.len(),
{
    if s.len() == 0 {
        seq![Seq::<char>::empty()]
    } else if s[0] == sep {
        seq![Seq::<char>::empty()] + spec_split(s.drop_first(), sep)
    } else {
        let rest = spec_split(s.drop_first(), sep);
        rest.update(0, seq![s[0]] + rest[0])
    }
}

/// A split never has fewer than one part.
proof fn lemma_split_len(s: Seq<char>, sep: char)
    ensures
        spec_split(s, sep).len() >= 1,
    decreases s.len(),
{
    if s.len() > 0 {
        lemma_split_len(s.drop_first(), sep);
    }
}

/// A string without the separator splits into exactly itself.
proof fn lemma_split_no_sep(s: Seq<char>, sep: char)
    requires
        forall|i: int| 0 <= i < s.len() ==> s[i] != sep,
    ensures
        spec_split(s, sep) == seq![s],
    decreases s.len(),
{
    if s.len() == 0 {
        assert(s =~= Seq::<char>::empty());
        assert(spec_split(s, sep) =~= seq![s]);
    } else {
        assert forall|i: int| 0 <= i < s.drop_first().len() implies s.drop_first()[i] != sep by {
            assert(s.drop_first()[i] == s[i + 1]);
        }
        lemma_split_no_sep(s.drop_first(), sep);
        assert(seq![s[0]] + s.drop_first() =~= s);
        assert(spec_split(s, sep) =~= seq![s]);
    }
}

/// A string whose first separator stands at `k` splits into the part before
/// `k` followed by the split of what stands after `k`.
proof fn lemma_split_at_first_sep(s: Seq<char>, sep: char, k: int)
    requires
        0 <= k < s.len(),
        s[k] == sep,
        forall|j: int| 0 <= j < k ==> s[j] != sep,
    ensures
        spec_split(s, sep) == seq![s.take(k)] + spec_split(s.skip(k + 1), sep),
    decreases k,
{
    if k == 0 {
        assert(s.take(0) =~= Seq::<char>::empty());
        assert(s.skip(1) =~= s.drop_first());
        assert(spec_split(s, sep) =~= seq![s.take(0)] + spec_split(s.skip(1), sep));
    } else {
        let d = s.drop_first();
        assert(d[k - 1] == s[k]);
        assert forall|j: int| 0 <= j < k - 1 implies d[j] != sep by {
            assert(d[j] == s[j + 1]);
        }
        lemma_split_at_first_sep(d, sep, k - 1);
        lemma_split_len(d.skip(k), sep);
        assert(seq![s[0]] + d.take(k - 1) =~= s.take(k));
        assert(d.skip(k) =~= s.skip(k + 1));
        assert(spec_split(s, sep) =~= seq![s.take(k)] + spec_split(s.skip(k + 1), sep));
    }
}

/// The position of the first separator at or after `from`, if any.
fn find_char(s: &str, sep: char, from: usize) -> (r: Option<usize>)
    requires
        from <= s@.len(),
    ensures
        match r {
            Some(k) => from <= k < s@.len() && s@[k as int] == sep && forall|j: int|
                from <= j < k ==> s@[j] != sep,
            None => forall|j: int| from <= j < s@.len() ==> s@[j] != sep,
        },
{
    let len = s.unicode_len();
    let mut k = from;
    while k < len
        invariant
            from <= k <= len,
            len == s@.len(),
            forall|j: int| from <= j < k ==> s@[j] != sep,
        decreases len - k,
    {
        if s.get_char(k) == sep {
            return Some(k);
        }
        k += 1;
    }
    None
}

/// Split the suffix of a string that starts at `from`.
fn split_from(s: &str, sep: char, from: usize) -> (r: Vec<String>)
    requires
        from <= s@.len(),
    ensures
        r@.map_values(|x: String| x@) == spec_split(s@.skip(from as int), sep),
    decreases s@.len() - from,
{
    match find_char(s, sep, from) {
        None => {
            let part = s.substring_char(from, s.unicode_len()).to_owned();
            let mut r: Vec<String> = Vec::new();
            r.push(part);
            proof {
                let suf = s@.skip(from as int);
                assert forall|i: int| 0 <= i < suf.len() implies suf[i] != sep by {
                    assert(suf[i] == s@[i + from]);
                }
                lemma_split_no_sep(suf, sep);
                assert(part@ =~= suf);
                assert(r@.map_values(|x: String| x@) =~= seq![part@]);
            }
            r
        },
        Some(k) => {
            let n = s.unicode_len();
            let part = s.substring_char(from, k).to_owned();
            assert(k < n);
            let mut r = split_from(s, sep, k + 1);
            let ghost rec_map = r@.map_values(|x: String| x@);
            r.insert(0, part);
            proof {
                let suf = s@.skip(from as int);
                let kk = k - from;
                assert(suf[kk as int] == s@[k as int]);
                assert forall|j: int| 0 <= j < kk implies suf[j] != sep by {
                    assert(suf[j] == s@[j + from]);
                }
                lemma_split_at_first_sep(suf, sep, kk as int);
                assert(suf.take(kk as int) =~= s@.subrange(from as int, k as int));
                assert(suf.skip(kk + 1) =~= s@.skip(k + 1 as int));
                assert(r@.map_values(|x: String| x@) =~= seq![part@] + rec_map);
            }
            r
        },
    }
}

/// Split a string at every occurrence of the separator.
pub fn split_string(s: &str, sep: char) -> (r: Vec<String>)
    ensures
        r@.map_values(|x: String| x@) == spec_split(s@, sep),
{
    let r = split_from(s, sep, 0);
    proof {
        assert(s@.skip(0) =~= s@);
    }
    r
}

/// Build unchecked checklist items from their texts, in order.
fn make_checklist(items: &Vec<String>) -> (r: Vec<SubTask>)
    ensures
        r@.len() == items@.len(),
        forall|i: int|
            0 <= i < r@.len() ==> r@[i].text@ == items@[i]@ && !r@[i].completed,
{
    let mut r: Vec<SubTask> = Vec::new();
    let mut i: usize = 0;
    while i < items.len()
        invariant
            i <= items@.len(),
            r@.len() == i,
            forall|j: int| 0 <= j < i ==> r@[j].text@ == items@[j]@ && !r@[j].completed,
        decreases items@.len() - i,
    {
        r.push(SubTask { text: items[i].clone(), completed: false });
        i += 1;
    }
    r
}

/// Parse a compact descriptor into a fresh task. The comma-separated parts
/// are, in order: the required name, the required difficulty label, then
/// optionally the notes, the due date in ISO form, and the
/// semicolon-separated checklist texts; parts past those five are ignored.
/// A missing required part, an unknown difficulty label, or an unparsable
/// due date is a malformed descriptor.
pub fn parse_task_descriptor(descriptor: String) -> (r: Result<Task, Error>)
    ensures
        match r {
            Ok(t) => {
                let parts = spec_split(descriptor@, ',');
                &&& parts.len() >= 2
                &&& t.id@ == Seq::<char>::empty()
                &&& t.text@ == parts[0]
                &&& t.task_type@ == "todo"@
                &&& spec_parse_difficulty(parts[1]) == Some(t.difficulty)
                &&& (parts.len() >= 3 ==> (t.notes matches Some(n) && n@ == parts[2]))
                &&& (parts.len() < 3 ==> t.notes is None)
                &&& (parts.len() >= 4 ==> (t.date matches Some(d) && valid_date(d) && parts[3]
                    == spec_format_date(d)))
                &&& (parts.len() < 4 ==> t.date is None)
                &&& (parts.len() >= 5 ==> (t.checklist matches Some(cl) && {
                    let texts = spec_split(parts[4], ';');
                    &&& cl@.len() == texts.len()
                    &&& forall|i: int|
                        0 <= i < cl@.len() ==> cl@[i].text@ == texts[i] && !cl@[i].completed
                }))
                &&& (parts.len() < 5 ==> t.checklist is None)
                &&& t.completed_at is None
                &&& task_wf(t)
            },
            Err(e) => {
                let parts = spec_split(descriptor@, ',');
                &&& e is Malformed
                &&& (parts.len() < 2 || spec_parse_difficulty(parts[1]) is None || (parts.len()
                    >= 4 && (forall|d: crate::date::CalendarDate|
                    valid_date(d) ==> parts[3] != spec_format_date(d))))
            },
        },
{
    let parts = split_string(descriptor.as_str(), ',');
    let ghost gparts = spec_split(descriptor@, ',');
    if parts.len() < 2 {
        return Err(Error::Malformed);
    }
    let difficulty = match parse_difficulty(parts[1].as_str()) {
        Ok(d) => d,
        Err(e) => {
            return Err(e);
        },
    };
    let date = if parts.len() >= 4 {
        match parse_date(parts[3].as_str()) {
            Ok(d) => Some(d),
            Err(e) => {
                return Err(e);
            },
        }
    } else {
        None
    };
    let notes = if parts.len() >= 3 {
        Some(parts[2].clone())
    } else {
        None
    };
    let checklist = if parts.len() >= 5 {
        let texts = split_string(parts[4].as_str(), ';');
        Some(make_checklist(&texts))
    } else {
        None
    };
    Ok(
        Task {
            id: TaskId::empty(),
            text: parts[0].clone(),
            task_type: String::from_str("todo"),
            difficulty,
            notes,
            date,
            completed_at: None,
            checklist,
        },
    )
}

} // verus!
