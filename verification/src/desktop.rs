//! Where monitors sit on the virtual desktop, and the orderings and lookups
//! built on that.
//!
//! Only positions, sizes and names are read here; everything else a monitor
//! carries stays with the caller, which applies the indices returned.

use vstd::prelude::*;

verus! {

/// A monitor's rectangle on the virtual desktop, in device pixels.
#[derive(Clone, Copy, Debug, PartialEq, Eq, Structural)]
pub struct MonitorBounds {
    pub x: i32,
    pub y: i32,
    pub width: u32,
    pub height: u32,
}

impl MonitorBounds {
    /// The virtual device pixel `(px, py)` lies on this monitor.
    pub open spec fn holds(&self, px: int, py: int) -> bool {
        self.x <= px < self.x + self.width && self.y <= py < self.y + self.height
    }

    /// Whether the virtual device pixel `(px, py)` lies on this monitor.
    pub fn contains(&self, px: i32, py: i32) -> (b: bool)
        ensures
            b == self.holds(px as int, py as int),
    {
        let px = px as i64;
        let py = py as i64;
        self.x as i64 <= px && px < self.x as i64 + self.width as i64 && self.y as i64 <= py && py
            < self.y as i64 + self.height as i64
    }
}

/// Index of the first monitor containing a virtual-desktop device pixel.
pub fn monitor_at_virtual(monitors: &Vec<MonitorBounds>, x: i32, y: i32) -> (found: Option<usize>)
    ensures
        match found {
            Some(i) => i < monitors@.len() && monitors@[i as int].holds(x as int, y as int) && forall|
                j: int,
            | 0 <= j < i ==> !(#[trigger] monitors@[j]).holds(x as int, y as int),
            None => forall|j: int|
                0 <= j < monitors@.len() ==> !(#[trigger] monitors@[j]).holds(x as int, y as int),
        },
{
    let mut i: usize = 0;
    while i < monitors.len()
        invariant
            0 <= i <= monitors@.len(),
            forall|j: int| 0 <= j < i ==> !(#[trigger] monitors@[j]).holds(x as int, y as int),
        decreases monitors@.len() - i,
    {
        if monitors[i].contains(x, y) {
            return Some(i);
        }
        i = i + 1;
    }
    None
}

/// Monitor `a` comes before monitor `b`: top to bottom, then left to right,
/// then in the order they were listed.
pub open spec fn placed_before(positions: Seq<(i32, i32)>, a: int, b: int) -> bool {
    let (pa, pb) = (positions[a], positions[b]);
    pa.1 < pb.1 || (pa.1 == pb.1 && (pa.0 < pb.0 || (pa.0 == pb.0 && a < b)))
}

/// The first position in `order` whose monitor lies strictly below, or level
/// with and strictly right of, monitor `i`.
fn insertion_point(positions: &Vec<(i32, i32)>, order: &Vec<usize>, i: usize) -> (p: usize)
    requires
        i < positions@.len(),
        forall|k: int| 0 <= k < order@.len() ==> #[trigger] order@[k] < i,
    ensures
        p <= order@.len(),
        forall|k: int| 0 <= k < p ==> placed_before(positions@, #[trigger] order@[k] as int, i as int),
        p < order@.len() ==> placed_before(positions@, i as int, order@[p as int] as int),
{
    let (xi, yi) = positions[i];
    let mut p: usize = 0;
    while p < order.len()
        invariant
            0 <= p <= order@.len(),
            i < positions@.len(),
            (xi, yi) == positions@[i as int],
            forall|k: int| 0 <= k < order@.len() ==> #[trigger] order@[k] < i,
            forall|k: int| 0 <= k < p ==> placed_before(positions@, #[trigger] order@[k] as int, i as int),
        decreases order@.len() - p,
    {
        let (xo, yo) = positions[order[p]];
        if yo > yi || (yo == yi && xo > xi) {
            return p;
        }
        p = p + 1;
    }
    p
}

/// The indices of `positions` in a deterministic left-to-right,
/// top-to-bottom order: each index exactly once, sorted by vertical then
/// horizontal position, ties keeping their listed order.
pub fn position_order(positions: &Vec<(i32, i32)>) -> (order: Vec<usize>)
    ensures
        order@.len() == positions@.len(),
        forall|k: int| 0 <= k < order@.len() ==> #[trigger] order@[k] < positions@.len(),
        forall|i: usize| i < positions@.len() ==> #[trigger] order@.contains(i),
        forall|a: int, b: int|
            0 <= a < b < order@.len() ==> placed_before(
                positions@,
                #[trigger] order@[a] as int,
                #[trigger] order@[b] as int,
            ),
{
    let mut order: Vec<usize> = Vec::new();
    let mut i: usize = 0;
    while i < positions.len()
        invariant
            0 <= i <= positions@.len(),
            order@.len() == i,
            forall|k: int| 0 <= k < order@.len() ==> #[trigger] order@[k] < i,
            forall|j: usize| j < i ==> #[trigger] order@.contains(j),
            forall|a: int, b: int|
                0 <= a < b < order@.len() ==> placed_before(
                    positions@,
                    #[trigger] order@[a] as int,
                    #[trigger] order@[b] as int,
                ),
        decreases positions@.len() - i,
    {
        let p = insertion_point(positions, &order, i);
        let ghost before = order@;
        assert forall|k: int| p <= k < before.len() implies placed_before(
            positions@,
            i as int,
            #[trigger] before[k] as int,
        ) by {
            if k > p {
                assert(placed_before(positions@, before[p as int] as int, before[k] as int));
            }
        }
        order.insert(p, i);
        proof {
            assert forall|j: usize| j <= i implies #[trigger] order@.contains(j) by {
                if j == i {
                    assert(order@[p as int] == i);
                } else {
                    assert(before.contains(j));
                    let w = choose|w: int| 0 <= w < before.len() && before[w] == j;
                    if w < p {
                        assert(order@[w] == j);
                    } else {
                        assert(order@[w + 1] == j);
                    }
                }
            }
        }
        i = i + 1;
    }
    order
}


/// How the window system identifies a monitor.
#[derive(Debug)]
pub struct MonitorId {
    pub name: Option<String>,
    pub position: (i32, i32),
}

/// `found` is the first index of `monitors` satisfying `pred`, or `None`
/// when no monitor does.
pub open spec fn is_first_where(found: Option<usize>, monitors: Seq<MonitorId>, pred: spec_fn(MonitorId) -> bool) -> bool {
    match found {
        Some(i) => i < monitors.len() && pred(monitors[i as int]) && forall|j: int|
            0 <= j < i ==> !pred(#[trigger] monitors[j]),
        None => forall|j: int| 0 <= j < monitors.len() ==> !pred(#[trigger] monitors[j]),
    }
}

/// The monitor is called `name`.
pub open spec fn named(name: Seq<char>) -> spec_fn(MonitorId) -> bool {
    |m: MonitorId| m.name matches Some(n) && n@ == name
}

/// The monitor's origin is `position`.
pub open spec fn placed_at(position: (i32, i32)) -> spec_fn(MonitorId) -> bool {
    |m: MonitorId| m.position == position
}

/// The monitor [`match_monitor`] picks for a captured display.
pub open spec fn match_monitor_spec(
    available: Seq<MonitorId>,
    name: Seq<char>,
    position: (i32, i32),
    index: usize,
    found: Option<usize>,
) -> bool {
    if exists|j: int| 0 <= j < available.len() && named(name)(#[trigger] available[j]) {
        found is Some && is_first_where(found, available, named(name))
    } else if exists|j: int| 0 <= j < available.len() && placed_at(position)(#[trigger] available[j]) {
        found is Some && is_first_where(found, available, placed_at(position))
    } else if index < available.len() {
        found == Some(index)
    } else {
        found is None
    }
}

fn first_named(available: &Vec<MonitorId>, name: &String) -> (found: Option<usize>)
    ensures
        is_first_where(found, available@, named(name@)),
{
    let mut i: usize = 0;
    while i < available.len()
        invariant
            0 <= i <= available@.len(),
            forall|j: int| 0 <= j < i ==> !named(name@)(#[trigger] available@[j]),
        decreases available@.len() - i,
    {
        let monitor = &available[i];
        let hit = match &monitor.name {
            Some(n) => n.eq(name),
            None => false,
        };
        assert(hit == named(name@)(available@[i as int]));
        if hit {
            return Some(i);
        }
        i = i + 1;
    }
    None
}

fn first_placed_at(available: &Vec<MonitorId>, position: (i32, i32)) -> (found: Option<usize>)
    ensures
        is_first_where(found, available@, placed_at(position)),
{
    let mut i: usize = 0;
    while i < available.len()
        invariant
            0 <= i <= available@.len(),
            forall|j: int| 0 <= j < i ==> !placed_at(position)(#[trigger] available@[j]),
        decreases available@.len() - i,
    {
        if available[i].position.0 == position.0 && available[i].position.1 == position.1 {
            return Some(i);
        }
        i = i + 1;
    }
    None
}

/// Finds the window system's monitor for a captured display: by name first,
/// then by origin, and failing both by its place in the list.
pub fn match_monitor(available: &Vec<MonitorId>, name: &String, position: (i32, i32), index: usize) -> (found:
    Option<usize>)
    ensures
        match_monitor_spec(available@, name@, position, index, found),
{
    if let Some(i) = first_named(available, name) {
        return Some(i);
    }
    if let Some(i) = first_placed_at(available, position) {
        return Some(i);
    }
    if index < available.len() {
        Some(index)
    } else {
        None
    }
}

} // verus!
