//! The difficulty codec: the bidirectional mapping between the four-level
//! difficulty enumeration and the fixed-point "priority" value of the wire
//! format, plus the cyclic stepping used by interactive editing and the
//! Low/Mid/High tier grouping used by the reordering engine.
//!
//! The wire format carries the priority as one of the floating-point values
//! 0.1, 1.0, 1.5 and 2.0. This library holds such a value as an integer
//! number of millionths (`0.1` is `100_000`), which the surrounding binary
//! obtains by rounding the float; all codec logic is exact integer
//! arithmetic. Decoding tolerates a perturbed value: anything within 0.01 of
//! an anchor maps to that anchor's difficulty, and anything else falls back
//! to `Hard`. The fallback is a deliberate part of the wire contract, not a
//! rejection.

use vstd::prelude::*;
use vstd::string::StringExecFns;

use crate::error::Error;

verus! {

/// The four-level task-effort classification, in ascending order of effort.
#[derive(Debug, Clone, Copy, PartialEq, Eq, Structural)]
pub enum Difficulty {
    Trivial,
    Easy,
    Medium,
    Hard,
}

/// The Low/Mid/High priority tier derived from a difficulty. It is computed
/// on demand by the reordering engine and never persisted.
#[derive(Debug, Clone, Copy, PartialEq, Eq, Structural)]
pub enum Priority {
    Low,
    Mid,
    High,
}

/// One whole unit of the wire format's priority value, in millionths.
pub const PRIORITY_UNIT: i64 = 1_000_000;

/// The wire anchor for `Trivial`: 0.1 in millionths.
pub const TRIVIAL_ANCHOR: i64 = 100_000;

/// The wire anchor for `Easy`: 1.0 in millionths.
pub const EASY_ANCHOR: i64 = 1_000_000;

/// The wire anchor for `Medium`: 1.5 in millionths.
pub const MEDIUM_ANCHOR: i64 = 1_500_000;

/// The wire anchor for `Hard`: 2.0 in millionths.
pub const HARD_ANCHOR: i64 = 2_000_000;

/// The decoding tolerance: 0.01 in millionths. A priority value strictly
/// closer than this to an anchor decodes to that anchor's difficulty.
pub const DECODE_TOLERANCE: i64 = 10_000;

/// The exact wire value of each difficulty.
pub open spec fn spec_encode(d: Difficulty) -> i64 {
    match d {
        Difficulty::Trivial => TRIVIAL_ANCHOR,
        Difficulty::Easy => EASY_ANCHOR,
        Difficulty::Medium => MEDIUM_ANCHOR,
        Difficulty::Hard => HARD_ANCHOR,
    }
}

/// True when `p` lies strictly within the decoding tolerance of `anchor`.
pub open spec fn near(p: int, anchor: int) -> bool {
    anchor - DECODE_TOLERANCE < p < anchor + DECODE_TOLERANCE
}

/// The epsilon-tolerant decoding rule: the first anchor within tolerance
/// wins, and everything out of tolerance falls back to `Hard`.
pub open spec fn spec_decode(p: int) -> Difficulty {
    if near(p, TRIVIAL_ANCHOR as int) {
        Difficulty::Trivial
    } else if near(p, EASY_ANCHOR as int) {
        Difficulty::Easy
    } else if near(p, MEDIUM_ANCHOR as int) {
        Difficulty::Medium
    } else {
        Difficulty::Hard
    }
}

/// Encode a difficulty as its exact wire value. Total and injective onto the
/// four anchors.
pub fn encode(d: Difficulty) -> (p: i64)
    ensures
        p == spec_encode(d),
{
    match d {
        Difficulty::Trivial => TRIVIAL_ANCHOR,
        Difficulty::Easy => EASY_ANCHOR,
        Difficulty::Medium => MEDIUM_ANCHOR,
        Difficulty::Hard => HARD_ANCHOR,
    }
}

/// Decode any priority value. Total and never failing: values within
/// tolerance of an anchor map to that anchor's difficulty, all others to
/// `Hard`.
pub fn decode(p: i64) -> (d: Difficulty)
    ensures
        d == spec_decode(p as int),
{
    if TRIVIAL_ANCHOR - DECODE_TOLERANCE < p && p < TRIVIAL_ANCHOR + DECODE_TOLERANCE {
        Difficulty::Trivial
    } else if EASY_ANCHOR - DECODE_TOLERANCE < p && p < EASY_ANCHOR + DECODE_TOLERANCE {
        Difficulty::Easy
    } else if MEDIUM_ANCHOR - DECODE_TOLERANCE < p && p < MEDIUM_ANCHOR + DECODE_TOLERANCE {
        Difficulty::Medium
    } else {
        Difficulty::Hard
    }
}

/// The successor in enumeration order, wrapping `Hard` around to `Trivial`.
pub open spec fn spec_next(d: Difficulty) -> Difficulty {
    match d {
        Difficulty::Trivial => Difficulty::Easy,
        Difficulty::Easy => Difficulty::Medium,
        Difficulty::Medium => Difficulty::Hard,
        Difficulty::Hard => Difficulty::Trivial,
    }
}

/// The predecessor in enumeration order, wrapping `Trivial` around to `Hard`.
pub open spec fn spec_prev(d: Difficulty) -> Difficulty {
    match d {
        Difficulty::Trivial => Difficulty::Hard,
        Difficulty::Easy => Difficulty::Trivial,
        Difficulty::Medium => Difficulty::Easy,
        Difficulty::Hard => Difficulty::Medium,
    }
}

/// The fixed grouping of difficulties into priority tiers: `Trivial` and
/// `Easy` are `Low`, `Medium` is `Mid`, `Hard` is `High`.
pub open spec fn spec_tier(d: Difficulty) -> Priority {
    match d {
        Difficulty::Trivial => Priority::Low,
        Difficulty::Easy => Priority::Low,
        Difficulty::Medium => Priority::Mid,
        Difficulty::Hard => Priority::High,
    }
}

/// The display label of each difficulty.
pub open spec fn spec_label(d: Difficulty) -> Seq<char> {
    match d {
        Difficulty::Trivial => "Trivial"@,
        Difficulty::Easy => "Easy"@,
        Difficulty::Medium => "Medium"@,
        Difficulty::Hard => "Hard"@,
    }
}

impl Difficulty {
    /// Step one level up, wrapping at the top.
    pub fn next(self) -> (r: Difficulty)
        ensures
            r == spec_next(self),
    {
        match self {
            Difficulty::Trivial => Difficulty::Easy,
            Difficulty::Easy => Difficulty::Medium,
            Difficulty::Medium => Difficulty::Hard,
            Difficulty::Hard => Difficulty::Trivial,
        }
    }

    /// Step one level down, wrapping at the bottom.
    pub fn prev(self) -> (r: Difficulty)
        ensures
            r == spec_prev(self),
    {
        match self {
            Difficulty::Trivial => Difficulty::Hard,
            Difficulty::Easy => Difficulty::Trivial,
            Difficulty::Medium => Difficulty::Easy,
            Difficulty::Hard => Difficulty::Medium,
        }
    }

    /// The priority tier this difficulty belongs to.
    pub fn tier(self) -> (p: Priority)
        ensures
            p == spec_tier(self),
    {
        match self {
            Difficulty::Trivial => Priority::Low,
            Difficulty::Easy => Priority::Low,
            Difficulty::Medium => Priority::Mid,
            Difficulty::Hard => Priority::High,
        }
    }

    /// The display label of this difficulty.
    pub fn label(self) -> (r: String)
        ensures
            r@ == spec_label(self),
    {
        match self {
            Difficulty::Trivial => String::from_str("Trivial"),
            Difficulty::Easy => String::from_str("Easy"),
            Difficulty::Medium => String::from_str("Medium"),
            Difficulty::Hard => String::from_str("Hard"),
        }
    }
}

/// The difficulty a label names, if any.
pub open spec fn spec_parse_difficulty(s: Seq<char>) -> Option<Difficulty> {
    if s == "Trivial"@ {
        Some(Difficulty::Trivial)
    } else if s == "Easy"@ {
        Some(Difficulty::Easy)
    } else if s == "Medium"@ {
        Some(Difficulty::Medium)
    } else if s == "Hard"@ {
        Some(Difficulty::Hard)
    } else {
        None
    }
}

/// Parse a difficulty from its display label. Exactly the four labels are
/// accepted; anything else is a malformed input.
pub fn parse_difficulty(selected: &str) -> (r: Result<Difficulty, Error>)
    ensures
        match r {
            Ok(d) => spec_parse_difficulty(selected@) == Some(d),
            Err(e) => spec_parse_difficulty(selected@) is None && e is Malformed,
        },
{
    if str_eq(selected, "Trivial") {
        Ok(Difficulty::Trivial)
    } else if str_eq(selected, "Easy") {
        Ok(Difficulty::Easy)
    } else if str_eq(selected, "Medium") {
        Ok(Difficulty::Medium)
    } else if str_eq(selected, "Hard") {
        Ok(Difficulty::Hard)
    } else {
        Err(Error::Malformed)
    }
}

/// Character-for-character equality of two string slices.
pub fn str_eq(a: &str, b: &str) -> (r: bool)
    ensures
        r == (a@ == b@),
{
    let oa = a.to_owned();
    let ob = b.to_owned();
    oa == ob
}

/// Law: encoding is exactly undone by decoding; the round trip over the wire
/// value is the identity on every difficulty.
pub proof fn lemma_encode_decode_round_trip(d: Difficulty)
    ensures
        spec_decode(spec_encode(d) as int) == d,
{
}

/// Law: decoding is epsilon-tolerant with a fallback. Every value strictly
/// within the tolerance of an anchor decodes to that anchor's difficulty
/// (the anchors are far enough apart that at most one is within tolerance),
/// and every value out of tolerance of all four anchors decodes to `Hard`.
pub proof fn lemma_decode_tolerance(p: int)
    ensures
        near(p, TRIVIAL_ANCHOR as int) ==> spec_decode(p) == Difficulty::Trivial,
        near(p, EASY_ANCHOR as int) ==> spec_decode(p) == Difficulty::Easy,
        near(p, MEDIUM_ANCHOR as int) ==> spec_decode(p) == Difficulty::Medium,
        near(p, HARD_ANCHOR as int) ==> spec_decode(p) == Difficulty::Hard,
        !near(p, TRIVIAL_ANCHOR as int) && !near(p, EASY_ANCHOR as int) && !near(
            p,
            MEDIUM_ANCHOR as int,
        ) && !near(p, HARD_ANCHOR as int) ==> spec_decode(p) == Difficulty::Hard,
{
}

/// Law: stepping up and stepping down are mutually inverse, so the four
/// levels form a cycle of order four.
pub proof fn lemma_next_prev_cycle(d: Difficulty)
    ensures
        spec_next(spec_prev(d)) == d,
        spec_prev(spec_next(d)) == d,
{
}

} // verus!
