//! Solution-table metadata: table kinds, axis conventions and the time axis
//! invariant.

use vstd::prelude::*;
use vstd::string::{StringExecFns, StrSliceExecFns};

use crate::fbits::f_lt;

verus! {

/// The physical quantity a solution table holds, read from the table's
/// title attribute.
#[derive(Clone, Copy, Debug, PartialEq, Eq, Structural)]
pub enum SolTabKind {
    Amplitude,
    Clock,
    Phase,
    RotationMeasure,
    Unknown,
}

/// Character-exact equality of two strings.
pub fn str_eq(a: &str, b: &str) -> (r: bool)
    ensures
        r == (a@ == b@),
{
    let na = a.unicode_len();
    let nb = b.unicode_len();
    if na != nb {
        return false;
    }
    let mut i: usize = 0;
    while i < na
        invariant
            na == a@.len(),
            nb == b@.len(),
            na == nb,
            i <= na,
            forall|j: int| 0 <= j < i ==> a@[j] == b@[j],
        decreases na - i,
    {
        if a.get_char(i) != b.get_char(i) {
            return false;
        }
        i += 1;
    }
    proof {
        assert(a@ =~= b@);
    }
    true
}

/// The kind encoded by a title string.
pub open spec fn spec_kind_from_title(t: Seq<char>) -> SolTabKind {
    if t == "amplitude"@ {
        SolTabKind::Amplitude
    } else if t == "phase"@ {
        SolTabKind::Phase
    } else if t == "clock"@ {
        SolTabKind::Clock
    } else if t == "rotationmeasure"@ {
        SolTabKind::RotationMeasure
    } else {
        SolTabKind::Unknown
    }
}

/// Maps a table's title attribute to its kind; unrecognised titles are
/// `Unknown`.
pub fn kind_from_title(title: &str) -> (k: SolTabKind)
    ensures
        k == spec_kind_from_title(title@),
{
    if str_eq(title, "amplitude") {
        SolTabKind::Amplitude
    } else if str_eq(title, "phase") {
        SolTabKind::Phase
    } else if str_eq(title, "clock") {
        SolTabKind::Clock
    } else if str_eq(title, "rotationmeasure") {
        SolTabKind::RotationMeasure
    } else {
        SolTabKind::Unknown
    }
}

/// The display name of a kind.
pub open spec fn spec_kind_name(k: SolTabKind) -> Seq<char> {
    match k {
        SolTabKind::Amplitude => "Amplitude"@,
        SolTabKind::Clock => "Clock"@,
        SolTabKind::Phase => "Phase"@,
        SolTabKind::RotationMeasure => "RotationMeasure"@,
        SolTabKind::Unknown => "Unknown"@,
    }
}

/// The display name of a kind, as a fresh string.
pub fn kind_name(k: &SolTabKind) -> (s: String)
    ensures
        s@ == spec_kind_name(*k),
{
    match k {
        SolTabKind::Amplitude => String::from_str("Amplitude"),
        SolTabKind::Clock => String::from_str("Clock"),
        SolTabKind::Phase => String::from_str("Phase"),
        SolTabKind::RotationMeasure => String::from_str("RotationMeasure"),
        SolTabKind::Unknown => String::from_str("Unknown"),
    }
}

/// A table may lack an optional metadata axis (for instance the polarisation
/// axis); the convention is to treat it as a single-entry axis with an empty
/// label rather than to fail.
pub fn axis_or_default(axis: Option<Vec<String>>) -> (r: Vec<String>)
    ensures
        match axis {
            Some(v) => r == v,
            None => r@.len() == 1 && r@[0]@ == Seq::<char>::empty(),
        },
{
    match axis {
        Some(v) => v,
        None => {
            let mut r: Vec<String> = Vec::new();
            r.push(String::new());
            r
        },
    }
}

/// The time axis invariant: stamps strictly increase in the value order.
pub open spec fn spec_times_increasing(ts: Seq<u64>) -> bool {
    forall|i: int| 0 <= i && i + 1 < ts.len() ==> f_lt(#[trigger] ts[i], ts[i + 1])
}

/// Checks that a sequence of time stamps (as bit patterns) strictly
/// increases in the value order; not-a-number stamps never qualify.
pub fn times_strictly_increasing(times: &Vec<u64>) -> (b: bool)
    ensures
        b == spec_times_increasing(times@),
{
    let n = times.len();
    if n == 0 {
        return true;
    }
    let mut i: usize = 1;
    while i < n
        invariant
            1 <= i <= n,
            n == times@.len(),
            forall|j: int| 0 <= j && j + 1 < i ==> f_lt(#[trigger] times@[j], times@[j + 1]),
        decreases n - i,
    {
        if !crate::fbits::lt_float(times[i - 1], times[i]) {
            return false;
        }
        i += 1;
    }
    true
}

} // verus!
