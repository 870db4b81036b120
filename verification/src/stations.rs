//! Station classes, decided by the antenna-name prefix.
//!
//! Names beginning with `CS` or `ST` are core stations, names beginning with
//! `RS` are remote stations, and every other name (including names shorter
//! than two characters) is an international station.  Only core and remote
//! stations are evaluated and flagged by the noise engine; the noise
//! baseline is taken over the core stations alone.

use vstd::prelude::*;

verus! {

/// The class of a station, ordered by distance from the array centre.
#[derive(Clone, Copy, Debug, PartialEq, Eq, Structural)]
pub enum StationClass {
    /// A station of the dense central core (`CS`/`ST` prefix).
    Core,
    /// A remote station (`RS` prefix).
    Remote,
    /// An international station (any other name).
    International,
}

/// The class encoded by a station name.
pub open spec fn spec_station_class(name: Seq<char>) -> StationClass {
    if name.len() >= 2 && ((name[0] == 'C' && name[1] == 'S') || (name[0] == 'S' && name[1]
        == 'T')) {
        StationClass::Core
    } else if name.len() >= 2 && name[0] == 'R' && name[1] == 'S' {
        StationClass::Remote
    } else {
        StationClass::International
    }
}

/// Whether the flagging engine evaluates (and may flag) stations of this class.
pub open spec fn spec_evaluated(c: StationClass) -> bool {
    c == StationClass::Core || c == StationClass::Remote
}

/// Classifies one station name by its prefix.
pub fn station_class(name: &str) -> (c: StationClass)
    ensures
        c == spec_station_class(name@),
{
    let n = name.unicode_len();
    if n < 2 {
        return StationClass::International;
    }
    let c0 = name.get_char(0);
    let c1 = name.get_char(1);
    if (c0 == 'C' && c1 == 'S') || (c0 == 'S' && c1 == 'T') {
        StationClass::Core
    } else if c0 == 'R' && c1 == 'S' {
        StationClass::Remote
    } else {
        StationClass::International
    }
}

/// Whether stations of class `c` are subject to flagging.
pub fn is_evaluated(c: StationClass) -> (r: bool)
    ensures
        r == spec_evaluated(c),
{
    match c {
        StationClass::Core => true,
        StationClass::Remote => true,
        StationClass::International => false,
    }
}

/// Classifies every antenna name of a table, in table order.
pub fn classify_stations(names: &Vec<String>) -> (r: Vec<StationClass>)
    ensures
        r@.len() == names@.len(),
        forall|i: int| 0 <= i < names@.len() ==> r@[i] == spec_station_class(names@[i]@),
{
    let mut r: Vec<StationClass> = Vec::new();
    for i in 0..names.len()
        invariant
            r@.len() == i,
            forall|j: int| 0 <= j < i ==> r@[j] == spec_station_class(names@[j]@),
    {
        r.push(station_class(names[i].as_str()));
    }
    r
}

/// The indices of the core stations, complete and in ascending table order.
pub fn core_station_indices(classes: &Vec<StationClass>) -> (r: Vec<usize>)
    ensures
        forall|j: int|
            0 <= j < r@.len() ==> #[trigger] r@[j] < classes@.len() && classes@[r@[j] as int]
                == StationClass::Core,
        forall|i: int|
            0 <= i < classes@.len() && classes@[i] == StationClass::Core ==> r@.contains(
                i as usize,
            ),
        forall|a: int, b: int| 0 <= a < b < r@.len() ==> #[trigger] r@[a] < #[trigger] r@[b],
{
    let mut r: Vec<usize> = Vec::new();
    for i in 0..classes.len()
        invariant
            forall|j: int|
                0 <= j < r@.len() ==> #[trigger] r@[j] < i && classes@[r@[j] as int]
                    == StationClass::Core,
            forall|q: int|
                0 <= q < i && classes@[q] == StationClass::Core ==> r@.contains(q as usize),
            forall|a: int, b: int| 0 <= a < b < r@.len() ==> #[trigger] r@[a] < #[trigger] r@[b],
    {
        let keep = match classes[i] {
            StationClass::Core => true,
            _ => false,
        };
        if keep {
            let ghost before = r@;
            r.push(i);
            proof {
                assert forall|q: int|
                    0 <= q < i + 1 && classes@[q] == StationClass::Core implies r@.contains(
                    q as usize,
                ) by {
                    if q < i {
                        assert(before.contains(q as usize));
                        let w = choose|w: int| 0 <= w < before.len() && before[w] == q as usize;
                        assert(r@[w] == q as usize);
                    } else {
                        assert(r@[r@.len() - 1] == i as usize);
                    }
                }
            }
        }
    }
    r
}

} // verus!
