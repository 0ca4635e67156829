//! Measurement primitives over an edge map.
//!
//! Everything here works in device pixels on a single monitor's edge map;
//! conversion to and from logical coordinates belongs to the caller.

use vstd::prelude::*;

use crate::edges::EdgeMap;

verus! {

/// The four axis-aligned ray directions cast from the cursor.
#[derive(Clone, Copy, Debug, PartialEq, Eq, Structural)]
pub enum Direction {
    North,
    South,
    West,
    East,
}

/// The point `k` steps from `(x, y)` towards `direction` (y grows downward).
pub open spec fn ray_point(x: int, y: int, direction: Direction, k: int) -> (int, int) {
    match direction {
        Direction::North => (x, y - k),
        Direction::South => (x, y + k),
        Direction::West => (x - k, y),
        Direction::East => (x + k, y),
    }
}

/// The `k`-th point of the ray lies on the map.
pub open spec fn ray_on_map(edges: &EdgeMap, x: int, y: int, direction: Direction, k: int) -> bool {
    let p = ray_point(x, y, direction, k);
    0 <= p.0 < edges.cols() && 0 <= p.1 < edges.rows()
}

/// The `k`-th point of the ray is an edge pixel.
pub open spec fn ray_hits(edges: &EdgeMap, x: int, y: int, direction: Direction, k: int) -> bool {
    let p = ray_point(x, y, direction, k);
    edges.cell(p.0, p.1)
}

/// `r` is the length of the ray from `(x, y)`: the number of steps taken
/// before stopping on an edge pixel (counted) or leaving the map (not
/// counted). The starting pixel is never inspected.
pub open spec fn is_ray_length(edges: &EdgeMap, x: int, y: int, direction: Direction, r: int) -> bool {
    &&& 0 <= r
    &&& forall|k: int| 1 <= k <= r ==> #[trigger] ray_on_map(edges, x, y, direction, k)
    &&& forall|k: int| 1 <= k < r ==> !#[trigger] ray_hits(edges, x, y, direction, k)
    &&& (1 <= r && ray_hits(edges, x, y, direction, r)) || !ray_on_map(edges, x, y, direction, r + 1)
}

/// Steps left before the ray from `(cx, cy)` reaches the map's border.
spec fn ray_budget(direction: Direction, cx: int, cy: int, w: int, h: int) -> int {
    match direction {
        Direction::North => cy,
        Direction::South => h - cy,
        Direction::West => cx,
        Direction::East => w - cx,
    }
}

/// A ray length is unique: no two lengths describe the same ray.
pub proof fn lemma_ray_length_unique(
    edges: &EdgeMap,
    x: int,
    y: int,
    direction: Direction,
    r1: int,
    r2: int,
)
    requires
        is_ray_length(edges, x, y, direction, r1),
        is_ray_length(edges, x, y, direction, r2),
    ensures
        r1 == r2,
{
    if r1 < r2 {
        assert(ray_on_map(edges, x, y, direction, r1 + 1));
        if 1 <= r1 {
            assert(!ray_hits(edges, x, y, direction, r1));
        }
    } else if r2 < r1 {
        assert(ray_on_map(edges, x, y, direction, r2 + 1));
        if 1 <= r2 {
            assert(!ray_hits(edges, x, y, direction, r2));
        }
    }
}

/// The starting pixel is never inspected: two maps of the same size that
/// differ only under the cursor give every ray the same length, so a cursor
/// resting on an edge still measures the span around it.
pub proof fn lemma_start_pixel_ignored(
    a: &EdgeMap,
    b: &EdgeMap,
    x: int,
    y: int,
    direction: Direction,
    r: int,
)
    requires
        a.cols() == b.cols(),
        a.rows() == b.rows(),
        forall|px: int, py: int| !(px == x && py == y) ==> #[trigger] a.cell(px, py) == b.cell(px, py),
    ensures
        is_ray_length(a, x, y, direction, r) <==> is_ray_length(b, x, y, direction, r),
{
    assert forall|k: int| 1 <= k implies #[trigger] ray_hits(a, x, y, direction, k) == ray_hits(
        b,
        x,
        y,
        direction,
        k,
    ) by {
        let p = ray_point(x, y, direction, k);
        assert(!(p.0 == x && p.1 == y));
        assert(a.cell(p.0, p.1) == b.cell(p.0, p.1));
    }
    assert forall|k: int| #[trigger] ray_on_map(a, x, y, direction, k) == ray_on_map(b, x, y, direction, k) by {}
    if 1 <= r {
        assert(ray_hits(a, x, y, direction, r) == ray_hits(b, x, y, direction, r));
    }
    assert(ray_on_map(a, x, y, direction, r + 1) == ray_on_map(b, x, y, direction, r + 1));
    if is_ray_length(a, x, y, direction, r) {
        assert forall|k: int| 1 <= k <= r implies #[trigger] ray_on_map(b, x, y, direction, k) by {
            assert(ray_on_map(a, x, y, direction, k));
        }
        assert forall|k: int| 1 <= k < r implies !#[trigger] ray_hits(b, x, y, direction, k) by {
            assert(!ray_hits(a, x, y, direction, k));
        }
    }
    if is_ray_length(b, x, y, direction, r) {
        assert forall|k: int| 1 <= k <= r implies #[trigger] ray_on_map(a, x, y, direction, k) by {
            assert(ray_on_map(b, x, y, direction, k));
        }
        assert forall|k: int| 1 <= k < r implies !#[trigger] ray_hits(a, x, y, direction, k) by {
            assert(!ray_hits(b, x, y, direction, k));
        }
    }
}

/// Distances from the cursor to the first edge in each direction, in device pixels.
#[derive(Clone, Copy, Debug, Default, PartialEq, Eq, Structural)]
pub struct Rays {
    pub north: usize,
    pub south: usize,
    pub west: usize,
    pub east: usize,
}

impl Rays {
    /// Total horizontal span between the west and east edges.
    pub fn width(self) -> (w: usize)
        requires
            self.west + self.east <= usize::MAX,
        ensures
            w == self.west + self.east,
    {
        self.west + self.east
    }

    /// Total vertical span between the north and south edges.
    pub fn height(self) -> (h: usize)
        requires
            self.north + self.south <= usize::MAX,
        ensures
            h == self.north + self.south,
    {
        self.north + self.south
    }
}

/// Casts a ray from `(x, y)` and returns the number of steps taken before
/// stopping on an edge pixel or leaving the map.
///
/// The starting pixel is never inspected, so a cursor resting on an edge still
/// measures the span around it rather than collapsing to zero.
pub fn trace_ray(edges: &EdgeMap, x: usize, y: usize, direction: Direction) -> (distance: usize)
    ensures
        is_ray_length(edges, x as int, y as int, direction, distance as int),
        edges.spec_is_empty() ==> distance == 0,
{
    if edges.is_empty() {
        return 0;
    }
    let w = edges.width();
    let h = edges.height();
    let mut cx = x;
    let mut cy = y;
    let mut distance: usize = 0;

    loop
        invariant
            w == edges.cols(),
            h == edges.rows(),
            w >= 1,
            h >= 1,
            ray_point(x as int, y as int, direction, distance as int) == (cx as int, cy as int),
            forall|k: int|
                1 <= k <= distance ==> #[trigger] ray_on_map(edges, x as int, y as int, direction, k),
            forall|k: int|
                1 <= k <= distance ==> !#[trigger] ray_hits(edges, x as int, y as int, direction, k),
            distance >= 1 ==> cx < w && cy < h,
        decreases ray_budget(direction, cx as int, cy as int, w as int, h as int),
    {
        let next: Option<(usize, usize)> = match direction {
            Direction::North => {
                if cy == 0 || cy - 1 >= h || cx >= w {
                    None
                } else {
                    Some((cx, cy - 1))
                }
            },
            Direction::South => {
                if cy >= h - 1 || cx >= w {
                    None
                } else {
                    Some((cx, cy + 1))
                }
            },
            Direction::West => {
                if cx == 0 || cx - 1 >= w || cy >= h {
                    None
                } else {
                    Some((cx - 1, cy))
                }
            },
            Direction::East => {
                if cx >= w - 1 || cy >= h {
                    None
                } else {
                    Some((cx + 1, cy))
                }
            },
        };
        match next {
            None => {
                assert(!ray_on_map(edges, x as int, y as int, direction, distance + 1));
                return distance;
            },
            Some((nx, ny)) => {
                assert(ray_point(x as int, y as int, direction, distance + 1) == (
                    nx as int,
                    ny as int,
                ));
                assert(ray_on_map(edges, x as int, y as int, direction, distance + 1));
                distance = distance + 1;
                if edges.at(nx, ny) {
                    assert(ray_hits(edges, x as int, y as int, direction, distance as int));
                    return distance;
                }
                cx = nx;
                cy = ny;
            },
        }
    }
}

/// Casts all four rays from `(x, y)`.
pub fn cast_rays(edges: &EdgeMap, x: usize, y: usize) -> (rays: Rays)
    ensures
        is_ray_length(edges, x as int, y as int, Direction::North, rays.north as int),
        is_ray_length(edges, x as int, y as int, Direction::South, rays.south as int),
        is_ray_length(edges, x as int, y as int, Direction::West, rays.west as int),
        is_ray_length(edges, x as int, y as int, Direction::East, rays.east as int),
{
    Rays {
        north: trace_ray(edges, x, y, Direction::North),
        south: trace_ray(edges, x, y, Direction::South),
        west: trace_ray(edges, x, y, Direction::West),
        east: trace_ray(edges, x, y, Direction::East),
    }
}


/// `|a - b|`.
pub open spec fn abs_diff(a: int, b: int) -> int {
    if a >= b {
        a - b
    } else {
        b - a
    }
}

/// Which lines of the map a probe runs along.
#[derive(Clone, Copy, Debug, PartialEq, Eq, Structural)]
pub enum Axis {
    /// Probe row `line` across columns `from..=to`.
    Row,
    /// Probe column `line` across rows `from..=to`.
    Column,
}

/// Whether line `line` of the given axis holds an edge within `from..=to`.
pub open spec fn line_has_edge(edges: &EdgeMap, axis: Axis, line: int, from: int, to: int) -> bool {
    match axis {
        Axis::Row => edges.row_has_edge(line, from, to),
        Axis::Column => edges.col_has_edge(line, from, to),
    }
}

/// The probe "does this line hold an edge within `from..=to`", as a predicate on lines.
pub open spec fn line_probe(edges: EdgeMap, axis: Axis, from: int, to: int) -> spec_fn(int) -> bool {
    |line: int| line_has_edge(&edges, axis, line, from, to)
}

/// Scans `c..=hi` upward, replacing `best` only by a hit strictly nearer to
/// `center`; ties therefore keep the lowest hit.
pub open spec fn nearest_scan(
    c: int,
    hi: int,
    center: int,
    hit: spec_fn(int) -> bool,
    best: Option<int>,
) -> Option<int>
    decreases hi + 1 - c,
{
    if c > hi {
        best
    } else {
        let next = if hit(c) && (best is None || abs_diff(c, center) < abs_diff(best->0, center)) {
            Some(c)
        } else {
            best
        };
        nearest_scan(c + 1, hi, center, hit, next)
    }
}

/// `found` is the hit in `lo..=hi` nearest to `center` (the lowest one on a
/// tie), or `None` when `lo..=hi` holds no hit.
pub open spec fn is_nearest_hit(
    found: Option<int>,
    lo: int,
    hi: int,
    center: int,
    hit: spec_fn(int) -> bool,
) -> bool {
    match found {
        None => forall|d: int| lo <= d <= hi ==> !#[trigger] hit(d),
        Some(b) => {
            &&& lo <= b <= hi
            &&& hit(b)
            &&& forall|d: int|
                lo <= d <= hi && #[trigger] hit(d) ==> abs_diff(b, center) < abs_diff(d, center) || (
                abs_diff(b, center) == abs_diff(d, center) && b <= d)
        },
    }
}

proof fn lemma_nearest_scan(
    lo: int,
    c: int,
    hi: int,
    center: int,
    hit: spec_fn(int) -> bool,
    best: Option<int>,
)
    requires
        lo <= c,
        is_nearest_hit(best, lo, c - 1, center, hit),
    ensures
        c <= hi + 1 ==> is_nearest_hit(nearest_scan(c, hi, center, hit, best), lo, hi, center, hit),
    decreases hi + 1 - c,
{
    if c <= hi {
        let next = if hit(c) && (best is None || abs_diff(c, center) < abs_diff(best->0, center)) {
            Some(c)
        } else {
            best
        };
        assert(is_nearest_hit(next, lo, c, center, hit));
        lemma_nearest_scan(lo, c + 1, hi, center, hit, next);
    }
}

/// The result of a full scan is the nearest hit, ties going to the lowest.
pub proof fn lemma_nearest_scan_is_nearest(lo: int, hi: int, center: int, hit: spec_fn(int) -> bool)
    requires
        lo <= hi + 1,
    ensures
        is_nearest_hit(nearest_scan(lo, hi, center, hit, None), lo, hi, center, hit),
{
    lemma_nearest_scan(lo, lo, hi, center, hit, None);
}

/// Result of pulling a loose point onto nearby edges.
#[derive(Clone, Copy, Debug, PartialEq, Eq, Structural)]
pub struct Snap {
    pub x: usize,
    pub y: usize,
    /// True when at least one axis actually moved onto an edge line; a point
    /// already on the line it found, or only clamped onto the map, has not
    /// moved.
    pub snapped: bool,
}

pub open spec fn min_int(a: int, b: int) -> int {
    if a <= b {
        a
    } else {
        b
    }
}

pub open spec fn max_int(a: int, b: int) -> int {
    if a >= b {
        a
    } else {
        b
    }
}

/// The search window of [`snap_to_edge`]: the point clamped onto the map, the
/// perpendicular band and the ranges scanned in each axis.
pub struct SnapWindow {
    pub cx: int,
    pub cy: int,
    pub row_min: int,
    pub row_max: int,
    pub col_min: int,
    pub col_max: int,
    pub x_lo: int,
    pub x_hi: int,
    pub y_lo: int,
    pub y_hi: int,
}

pub open spec fn snap_window(edges: &EdgeMap, x: int, y: int, radius: int, band: int) -> SnapWindow {
    let max_x = edges.cols() - 1;
    let max_y = edges.rows() - 1;
    let cx = min_int(x, max_x);
    let cy = min_int(y, max_y);
    let b = max_int(band, 1);
    SnapWindow {
        cx,
        cy,
        row_min: max_int(cy - b, 0),
        row_max: min_int(cy + b, max_y),
        col_min: max_int(cx - b, 0),
        col_max: min_int(cx + b, max_x),
        x_lo: max_int(cx - radius, 0),
        x_hi: min_int(cx + radius, max_x),
        y_lo: max_int(cy - radius, 0),
        y_hi: min_int(cy + radius, max_y),
    }
}

/// The column [`snap_to_edge`] picks: nearest column within the radius that
/// carries an edge inside the horizontal band.
pub open spec fn snap_column(edges: &EdgeMap, x: int, y: int, radius: int, band: int) -> Option<int> {
    let win = snap_window(edges, x, y, radius, band);
    nearest_scan(win.x_lo, win.x_hi, win.cx, line_probe(*edges, Axis::Column, win.row_min, win.row_max), None)
}

/// The row [`snap_to_edge`] picks: nearest row within the radius that carries
/// an edge inside the vertical band.
pub open spec fn snap_row(edges: &EdgeMap, x: int, y: int, radius: int, band: int) -> Option<int> {
    let win = snap_window(edges, x, y, radius, band);
    nearest_scan(win.y_lo, win.y_hi, win.cy, line_probe(*edges, Axis::Row, win.col_min, win.col_max), None)
}

/// What [`snap_to_edge`] returns.
pub open spec fn snap_spec(edges: &EdgeMap, x: usize, y: usize, radius: usize, band: usize) -> Snap {
    if edges.spec_is_empty() || radius == 0 {
        Snap { x, y, snapped: false }
    } else {
        let win = snap_window(edges, x as int, y as int, radius as int, band as int);
        let bx = snap_column(edges, x as int, y as int, radius as int, band as int);
        let by = snap_row(edges, x as int, y as int, radius as int, band as int);
        Snap {
            x: match bx {
                Some(c) => c as usize,
                None => win.cx as usize,
            },
            y: match by {
                Some(r) => r as usize,
                None => win.cy as usize,
            },
            snapped: (bx matches Some(c) && c != win.cx) || (by matches Some(r) && r != win.cy),
        }
    }
}

/// The additions [`snap_to_edge`] performs stay within `usize`.
pub open spec fn snap_fits(edges: &EdgeMap, x: usize, y: usize, radius: usize, band: usize) -> bool {
    !edges.spec_is_empty() && radius != 0 ==> {
        let win = snap_window(edges, x as int, y as int, radius as int, band as int);
        let b = max_int(band as int, 1);
        &&& win.cx + radius <= usize::MAX
        &&& win.cy + radius <= usize::MAX
        &&& win.cx + b <= usize::MAX
        &&& win.cy + b <= usize::MAX
    }
}

fn abs_diff_usize(a: usize, b: usize) -> (d: usize)
    ensures
        d == abs_diff(a as int, b as int),
{
    if a >= b {
        a - b
    } else {
        b - a
    }
}

/// Whether line `line` of `axis` holds an edge within `from..=to`.
fn probe(edges: &EdgeMap, axis: Axis, line: usize, from: usize, to: usize) -> (b: bool)
    ensures
        b == line_probe(*edges, axis, from as int, to as int)(line as int),
{
    match axis {
        Axis::Row => edges.any_in_row(line, from, to),
        Axis::Column => edges.any_in_column(line, from, to),
    }
}

spec fn widen(o: Option<usize>) -> Option<int> {
    match o {
        Some(c) => Some(c as int),
        None => None,
    }
}

/// Scans `lo..=hi` for the line nearest to `center` that `probe` reports an edge on.
fn nearest_line(
    edges: &EdgeMap,
    axis: Axis,
    from: usize,
    to: usize,
    lo: usize,
    hi: usize,
    center: usize,
) -> (found: Option<usize>)
    requires
        hi < usize::MAX,
    ensures
        found matches Some(c) ==> nearest_scan(
            lo as int,
            hi as int,
            center as int,
            line_probe(*edges, axis, from as int, to as int),
            None,
        ) == Some(c as int),
        found is None ==> nearest_scan(
            lo as int,
            hi as int,
            center as int,
            line_probe(*edges, axis, from as int, to as int),
            None,
        ) is None,
{
    let ghost hit = line_probe(*edges, axis, from as int, to as int);
    let mut best: Option<usize> = None;
    let mut candidate = lo;
    if lo > hi {
        return None;
    }
    while candidate <= hi
        invariant
            lo <= candidate <= hi + 1,
            hi < usize::MAX,
            hit == line_probe(*edges, axis, from as int, to as int),
            nearest_scan(lo as int, hi as int, center as int, hit, None) == nearest_scan(
                candidate as int,
                hi as int,
                center as int,
                hit,
                widen(best),
            ),
        decreases hi + 1 - candidate,
    {
        let ghost before = widen(best);
        let h = probe(edges, axis, candidate, from, to);
        if h {
            let closer = match best {
                None => true,
                Some(b) => abs_diff_usize(candidate, center) < abs_diff_usize(b, center),
            };
            if closer {
                best = Some(candidate);
            }
        }
        assert(widen(best) == (if hit(candidate as int) && (before is None || abs_diff(
            candidate as int,
            center as int,
        ) < abs_diff(before->0, center as int)) {
            Some(candidate as int)
        } else {
            before
        }));
        candidate = candidate + 1;
    }
    best
}

/// Whether a line was found and it differs from `from`.
fn moved(found: Option<usize>, from: usize) -> (b: bool)
    ensures
        b == (found matches Some(c) && c != from),
{
    match found {
        Some(c) => c != from,
        None => false,
    }
}

/// Pulls `(x, y)` onto the nearest edge within `radius` device pixels.
///
/// The axes snap independently: a point beside a vertical rule snaps in x
/// while keeping its y. `band` widens the perpendicular search so a near-miss
/// on a slightly diagonal edge still registers.
pub fn snap_to_edge(edges: &EdgeMap, x: usize, y: usize, radius: usize, band: usize) -> (snap: Snap)
    requires
        snap_fits(edges, x, y, radius, band),
    ensures
        snap == snap_spec(edges, x, y, radius, band),
{
    if edges.is_empty() || radius == 0 {
        return Snap { x, y, snapped: false };
    }
    let ghost win = snap_window(edges, x as int, y as int, radius as int, band as int);
    let ghost b = max_int(band as int, 1);

    let max_x = edges.width() - 1;
    let max_y = edges.height() - 1;
    let x = if x < max_x {
        x
    } else {
        max_x
    };
    let y = if y < max_y {
        y
    } else {
        max_y
    };
    let band = if band > 1 {
        band
    } else {
        1
    };
    assert(x == win.cx && y == win.cy && band == b);

    let row_min = y.saturating_sub(band);
    let row_max = if y + band < max_y {
        y + band
    } else {
        max_y
    };
    let col_min = x.saturating_sub(band);
    let col_max = if x + band < max_x {
        x + band
    } else {
        max_x
    };

    assert(row_min == win.row_min && row_max == win.row_max);
    assert(col_min == win.col_min && col_max == win.col_max);
    let x_hi = if x + radius < max_x {
        x + radius
    } else {
        max_x
    };
    assert(x_hi == win.x_hi && x.saturating_sub(radius) == win.x_lo);
    let best_x = nearest_line(edges, Axis::Column, row_min, row_max, x.saturating_sub(radius), x_hi, x);

    let y_hi = if y + radius < max_y {
        y + radius
    } else {
        max_y
    };
    assert(y_hi == win.y_hi && y.saturating_sub(radius) == win.y_lo);
    let best_y = nearest_line(edges, Axis::Row, col_min, col_max, y.saturating_sub(radius), y_hi, y);

    Snap {
        x: match best_x {
            Some(c) => c,
            None => x,
        },
        y: match best_y {
            Some(r) => r,
            None => y,
        },
        snapped: moved(best_x, x) || moved(best_y, y),
    }
}


/// Snapping pulls each axis independently onto the nearest line within the
/// radius that carries an edge inside the perpendicular band (the lower one on
/// a tie); an axis with no such line keeps the coordinate clamped onto the
/// map, and the snap reports movement exactly when the result differs from
/// that clamped point.
pub proof fn lemma_snap_is_nearest(edges: &EdgeMap, x: usize, y: usize, radius: usize, band: usize)
    requires
        !edges.spec_is_empty(),
        radius > 0,
    ensures
        ({
            let win = snap_window(edges, x as int, y as int, radius as int, band as int);
            let cols = line_probe(*edges, Axis::Column, win.row_min, win.row_max);
            let rows = line_probe(*edges, Axis::Row, win.col_min, win.col_max);
            let s = snap_spec(edges, x, y, radius, band);
            &&& (exists|c: int| win.x_lo <= c <= win.x_hi && #[trigger] cols(c)) ==> is_nearest_hit(
                Some(s.x as int),
                win.x_lo,
                win.x_hi,
                win.cx,
                cols,
            )
            &&& !(exists|c: int| win.x_lo <= c <= win.x_hi && #[trigger] cols(c)) ==> s.x == win.cx
            &&& (exists|r: int| win.y_lo <= r <= win.y_hi && #[trigger] rows(r)) ==> is_nearest_hit(
                Some(s.y as int),
                win.y_lo,
                win.y_hi,
                win.cy,
                rows,
            )
            &&& !(exists|r: int| win.y_lo <= r <= win.y_hi && #[trigger] rows(r)) ==> s.y == win.cy
            &&& s.snapped == (s.x != win.cx || s.y != win.cy)
        }),
{
    let win = snap_window(edges, x as int, y as int, radius as int, band as int);
    let cols = line_probe(*edges, Axis::Column, win.row_min, win.row_max);
    let rows = line_probe(*edges, Axis::Row, win.col_min, win.col_max);
    lemma_nearest_scan_is_nearest(win.x_lo, win.x_hi, win.cx, cols);
    lemma_nearest_scan_is_nearest(win.y_lo, win.y_hi, win.cy, rows);
    let bx = snap_column(edges, x as int, y as int, radius as int, band as int);
    let by = snap_row(edges, x as int, y as int, radius as int, band as int);
    assert(0 <= win.cx < edges.cols() && 0 <= win.cy < edges.rows());
    edges.lemma_dims_fit();
    if let Some(c) = bx {
        assert(win.x_lo <= c <= win.x_hi);
        assert(c as usize as int == c);
    }
    if let Some(r) = by {
        assert(win.y_lo <= r <= win.y_hi);
        assert(r as usize as int == r);
    }
}

/// Clamping a probe's range onto the map loses no edge: a line carries an
/// edge within `from..=to` exactly when it carries one within that range cut
/// to the map.
proof fn lemma_probe_clamped(edges: &EdgeMap, axis: Axis, from: int, to: int, lo: int, hi: int)
    requires
        lo == max_int(from, 0),
        hi == match axis {
            Axis::Row => min_int(to, edges.cols() - 1),
            Axis::Column => min_int(to, edges.rows() - 1),
        },
    ensures
        forall|line: int|
            #[trigger] line_probe(*edges, axis, lo, hi)(line) == line_probe(*edges, axis, from, to)(line),
{
    assert forall|line: int|
        #[trigger] line_probe(*edges, axis, lo, hi)(line) == line_probe(*edges, axis, from, to)(line) by {
        match axis {
            Axis::Row => {
                if edges.row_has_edge(line, from, to) {
                    let w = choose|w: int| from <= w <= to && #[trigger] edges.cell(w, line);
                    edges.lemma_cell_off_map(w, line);
                    assert(lo <= w <= hi && edges.cell(w, line));
                }
                if edges.row_has_edge(line, lo, hi) {
                    let w = choose|w: int| lo <= w <= hi && #[trigger] edges.cell(w, line);
                    assert(from <= w <= to && edges.cell(w, line));
                }
            },
            Axis::Column => {
                if edges.col_has_edge(line, from, to) {
                    let w = choose|w: int| from <= w <= to && #[trigger] edges.cell(line, w);
                    edges.lemma_cell_off_map(line, w);
                    assert(lo <= w <= hi && edges.cell(line, w));
                }
                if edges.col_has_edge(line, lo, hi) {
                    let w = choose|w: int| lo <= w <= hi && #[trigger] edges.cell(line, w);
                    assert(from <= w <= to && edges.cell(line, w));
                }
            },
        }
    }
}

/// For a point on the map, snapping in x picks, among all columns within
/// `radius` of x that carry an edge in rows y-b..=y+b (b the band, at least
/// one), the one nearest to x (the lower one on a tie), and keeps x when there
/// is none; y is chosen the same way from the rows, independently of x.
pub proof fn lemma_snap_on_map(edges: &EdgeMap, x: usize, y: usize, radius: usize, band: usize)
    requires
        !edges.spec_is_empty(),
        radius > 0,
        x < edges.cols(),
        y < edges.rows(),
    ensures
        ({
            let b = max_int(band as int, 1);
            let cols = line_probe(*edges, Axis::Column, y - b, y + b);
            let rows = line_probe(*edges, Axis::Row, x - b, x + b);
            let s = snap_spec(edges, x, y, radius, band);
            &&& (exists|c: int| x - radius <= c <= x + radius && #[trigger] cols(c)) ==> is_nearest_hit(
                Some(s.x as int),
                x - radius,
                x + radius,
                x as int,
                cols,
            )
            &&& !(exists|c: int| x - radius <= c <= x + radius && #[trigger] cols(c)) ==> s.x == x
            &&& (exists|r: int| y - radius <= r <= y + radius && #[trigger] rows(r)) ==> is_nearest_hit(
                Some(s.y as int),
                y - radius,
                y + radius,
                y as int,
                rows,
            )
            &&& !(exists|r: int| y - radius <= r <= y + radius && #[trigger] rows(r)) ==> s.y == y
        }),
{
    let b = max_int(band as int, 1);
    let win = snap_window(edges, x as int, y as int, radius as int, band as int);
    let cols = line_probe(*edges, Axis::Column, y - b, y + b);
    let rows = line_probe(*edges, Axis::Row, x - b, x + b);
    let wcols = line_probe(*edges, Axis::Column, win.row_min, win.row_max);
    let wrows = line_probe(*edges, Axis::Row, win.col_min, win.col_max);
    let s = snap_spec(edges, x, y, radius, band);
    assert(win.cx == x && win.cy == y);
    lemma_probe_clamped(edges, Axis::Column, y - b, y + b, win.row_min, win.row_max);
    lemma_probe_clamped(edges, Axis::Row, x - b, x + b, win.col_min, win.col_max);
    lemma_snap_is_nearest(edges, x, y, radius, band);
    // Lines off the map carry no edge, so widening the scanned range to the
    // full radius adds no candidate.
    assert forall|c: int| #[trigger] cols(c) implies 0 <= c < edges.cols() by {
        let w = choose|w: int| y - b <= w <= y + b && #[trigger] edges.cell(c, w);
        edges.lemma_cell_off_map(c, w);
    }
    assert forall|r: int| #[trigger] rows(r) implies 0 <= r < edges.rows() by {
        let w = choose|w: int| x - b <= w <= x + b && #[trigger] edges.cell(w, r);
        edges.lemma_cell_off_map(w, r);
    }
    assert forall|c: int| x - radius <= c <= x + radius && #[trigger] cols(c) implies win.x_lo <= c
        <= win.x_hi && wcols(c) by {
        assert(wcols(c) == cols(c));
    }
    assert forall|r: int| y - radius <= r <= y + radius && #[trigger] rows(r) implies win.y_lo <= r
        <= win.y_hi && wrows(r) by {
        assert(wrows(r) == rows(r));
    }
    if exists|c: int| x - radius <= c <= x + radius && #[trigger] cols(c) {
        let c0 = choose|c: int| x - radius <= c <= x + radius && #[trigger] cols(c);
        assert(win.x_lo <= c0 <= win.x_hi && wcols(c0));
        assert(is_nearest_hit(Some(s.x as int), win.x_lo, win.x_hi, win.cx, wcols));
        assert(cols(s.x as int) == wcols(s.x as int));
    } else {
        assert forall|c: int| win.x_lo <= c <= win.x_hi implies !#[trigger] wcols(c) by {
            assert(wcols(c) == cols(c));
        }
    }
    if exists|r: int| y - radius <= r <= y + radius && #[trigger] rows(r) {
        let r0 = choose|r: int| y - radius <= r <= y + radius && #[trigger] rows(r);
        assert(win.y_lo <= r0 <= win.y_hi && wrows(r0));
        assert(is_nearest_hit(Some(s.y as int), win.y_lo, win.y_hi, win.cy, wrows));
        assert(rows(s.y as int) == wrows(s.y as int));
    } else {
        assert forall|r: int| win.y_lo <= r <= win.y_hi implies !#[trigger] wrows(r) by {
            assert(wrows(r) == rows(r));
        }
    }
}

/// The first line in `lo..=hi` satisfying `hit`, or `default` when none does.
pub open spec fn first_hit(lo: int, hi: int, hit: spec_fn(int) -> bool, default: int) -> int
    decreases hi + 1 - lo,
{
    if lo > hi {
        default
    } else if hit(lo) {
        lo
    } else {
        first_hit(lo + 1, hi, hit, default)
    }
}

/// The last line in `lo..=hi` satisfying `hit`, or `default` when none does.
pub open spec fn last_hit(lo: int, hi: int, hit: spec_fn(int) -> bool, default: int) -> int
    decreases hi + 1 - lo,
{
    if lo > hi {
        default
    } else if hit(hi) {
        hi
    } else {
        last_hit(lo, hi - 1, hit, default)
    }
}

/// `first_hit` is the lowest hit of the range, or the default when there is none.
pub proof fn lemma_first_hit(lo: int, hi: int, hit: spec_fn(int) -> bool, default: int)
    ensures
        (exists|v: int| lo <= v <= hi && #[trigger] hit(v)) ==> {
            let f = first_hit(lo, hi, hit, default);
            &&& lo <= f <= hi
            &&& hit(f)
            &&& forall|u: int| lo <= u < f ==> !#[trigger] hit(u)
        },
        !(exists|v: int| lo <= v <= hi && #[trigger] hit(v)) ==> first_hit(lo, hi, hit, default)
            == default,
    decreases hi + 1 - lo,
{
    if lo <= hi && !hit(lo) {
        lemma_first_hit(lo + 1, hi, hit, default);
        assert forall|v: int| lo <= v <= hi && #[trigger] hit(v) implies lo + 1 <= v <= hi by {}
    }
}

/// `last_hit` is the highest hit of the range, or the default when there is none.
pub proof fn lemma_last_hit(lo: int, hi: int, hit: spec_fn(int) -> bool, default: int)
    ensures
        (exists|v: int| lo <= v <= hi && #[trigger] hit(v)) ==> {
            let l = last_hit(lo, hi, hit, default);
            &&& lo <= l <= hi
            &&& hit(l)
            &&& forall|u: int| l < u <= hi ==> !#[trigger] hit(u)
        },
        !(exists|v: int| lo <= v <= hi && #[trigger] hit(v)) ==> last_hit(lo, hi, hit, default)
            == default,
    decreases hi + 1 - lo,
{
    if lo <= hi && !hit(hi) {
        lemma_last_hit(lo, hi - 1, hit, default);
        assert forall|v: int| lo <= v <= hi && #[trigger] hit(v) implies lo <= v <= hi - 1 by {}
    }
}

/// The first line of `lo..=hi` with an edge within `from..=to`, or `default`.
fn first_line(
    edges: &EdgeMap,
    axis: Axis,
    from: usize,
    to: usize,
    lo: usize,
    hi: usize,
    default: usize,
) -> (line: usize)
    ensures
        line == first_hit(lo as int, hi as int, line_probe(*edges, axis, from as int, to as int), default as int),
{
    let ghost hit = line_probe(*edges, axis, from as int, to as int);
    if lo > hi {
        return default;
    }
    let mut line = lo;
    loop
        invariant
            lo <= line <= hi,
            hit == line_probe(*edges, axis, from as int, to as int),
            first_hit(lo as int, hi as int, hit, default as int) == first_hit(
                line as int,
                hi as int,
                hit,
                default as int,
            ),
        decreases hi - line,
    {
        if probe(edges, axis, line, from, to) {
            return line;
        }
        if line == hi {
            assert(first_hit(line + 1, hi as int, hit, default as int) == default);
            return default;
        }
        line = line + 1;
    }
}

/// The last line of `lo..=hi` with an edge within `from..=to`, or `default`.
fn last_line(
    edges: &EdgeMap,
    axis: Axis,
    from: usize,
    to: usize,
    lo: usize,
    hi: usize,
    default: usize,
) -> (line: usize)
    ensures
        line == last_hit(lo as int, hi as int, line_probe(*edges, axis, from as int, to as int), default as int),
{
    let ghost hit = line_probe(*edges, axis, from as int, to as int);
    if lo > hi {
        return default;
    }
    let mut line = hi;
    loop
        invariant
            lo <= line <= hi,
            hit == line_probe(*edges, axis, from as int, to as int),
            last_hit(lo as int, hi as int, hit, default as int) == last_hit(
                lo as int,
                line as int,
                hit,
                default as int,
            ),
        decreases line - lo,
    {
        if probe(edges, axis, line, from, to) {
            return line;
        }
        if line == lo {
            assert(last_hit(lo as int, line - 1, hit, default as int) == default);
            return default;
        }
        line = line - 1;
    }
}

/// An inclusive rectangle in device pixels.
#[derive(Clone, Copy, Debug, PartialEq, Eq, Structural)]
pub struct PixelRect {
    pub left: usize,
    pub top: usize,
    pub right: usize,
    pub bottom: usize,
}

pub open spec fn clamp_int(v: int, lo: int, hi: int) -> int {
    if v < lo {
        lo
    } else if v > hi {
        hi
    } else {
        v
    }
}

impl PixelRect {
    /// Builds a normalised rect from two corners, clamped to `(max_x, max_y)`.
    pub fn from_corners(x0: isize, y0: isize, x1: isize, y1: isize, max_x: usize, max_y: usize) -> (r:
        Self)
        requires
            max_x <= isize::MAX,
            max_y <= isize::MAX,
        ensures
            r.left == clamp_int(min_int(x0 as int, x1 as int), 0, max_x as int),
            r.top == clamp_int(min_int(y0 as int, y1 as int), 0, max_y as int),
            r.right == clamp_int(max_int(x0 as int, x1 as int), 0, max_x as int),
            r.bottom == clamp_int(max_int(y0 as int, y1 as int), 0, max_y as int),
            r.left <= r.right <= max_x,
            r.top <= r.bottom <= max_y,
    {
        let mx = max_x as isize;
        let my = max_y as isize;
        let lx = if x0 < x1 { x0 } else { x1 };
        let hx = if x0 < x1 { x1 } else { x0 };
        let ly = if y0 < y1 { y0 } else { y1 };
        let hy = if y0 < y1 { y1 } else { y0 };
        PixelRect {
            left: clamp_to(lx, mx),
            top: clamp_to(ly, my),
            right: clamp_to(hx, mx),
            bottom: clamp_to(hy, my),
        }
    }

    pub fn width(self) -> (w: usize)
        requires
            self.left <= self.right,
        ensures
            w == self.right - self.left,
    {
        self.right - self.left
    }

    pub fn height(self) -> (h: usize)
        requires
            self.top <= self.bottom,
        ensures
            h == self.bottom - self.top,
    {
        self.bottom - self.top
    }
}

/// `v` clamped into `0..=max`.
fn clamp_to(v: isize, max: isize) -> (r: usize)
    requires
        max >= 0,
    ensures
        r == clamp_int(v as int, 0, max as int),
{
    if v < 0 {
        0
    } else if v > max {
        max as usize
    } else {
        v as usize
    }
}

/// Rectangles smaller than this are left untouched by shrink-to-fit; there is
/// no meaningful content to tighten onto.
pub const MIN_SHRINK_SIZE: usize = 5;

/// The rectangle [`shrink_to_content`] returns.
pub open spec fn shrink_spec(edges: &EdgeMap, rect: PixelRect) -> PixelRect {
    if edges.spec_is_empty() || rect.right - rect.left < MIN_SHRINK_SIZE || rect.bottom - rect.top
        < MIN_SHRINK_SIZE {
        rect
    } else {
        let rows = line_probe(*edges, Axis::Row, rect.left as int, rect.right as int);
        let top = first_hit(rect.top as int, rect.bottom as int, rows, rect.top as int);
        let bottom = last_hit(top, rect.bottom as int, rows, rect.bottom as int);
        let cols = line_probe(*edges, Axis::Column, top, bottom);
        let left = first_hit(rect.left as int, rect.right as int, cols, rect.left as int);
        let right = last_hit(left, rect.right as int, cols, rect.right as int);
        PixelRect {
            left: left as usize,
            top: top as usize,
            right: right as usize,
            bottom: bottom as usize,
        }
    }
}

/// The widths [`shrink_to_content`] computes do not underflow.
pub open spec fn shrink_defined(edges: &EdgeMap, rect: PixelRect) -> bool {
    !edges.spec_is_empty() ==> {
        &&& rect.left <= rect.right
        &&& rect.right - rect.left >= MIN_SHRINK_SIZE ==> rect.top <= rect.bottom
    }
}

/// Tightens `rect` inward until each side rests on the outermost edge pixel it
/// contains, discarding surrounding whitespace.
///
/// Returns `rect` unchanged when it is too small or contains no edges at all.
pub fn shrink_to_content(edges: &EdgeMap, rect: PixelRect) -> (r: PixelRect)
    requires
        shrink_defined(edges, rect),
    ensures
        r == shrink_spec(edges, rect),
{
    if edges.is_empty() || rect.width() < MIN_SHRINK_SIZE || rect.height() < MIN_SHRINK_SIZE {
        return rect;
    }
    let top = first_line(edges, Axis::Row, rect.left, rect.right, rect.top, rect.bottom, rect.top);
    proof {
        lemma_first_hit(
            rect.top as int,
            rect.bottom as int,
            line_probe(*edges, Axis::Row, rect.left as int, rect.right as int),
            rect.top as int,
        );
    }
    let bottom = last_line(edges, Axis::Row, rect.left, rect.right, top, rect.bottom, rect.bottom);
    proof {
        lemma_last_hit(
            top as int,
            rect.bottom as int,
            line_probe(*edges, Axis::Row, rect.left as int, rect.right as int),
            rect.bottom as int,
        );
    }
    let left = first_line(edges, Axis::Column, top, bottom, rect.left, rect.right, rect.left);
    let right = last_line(edges, Axis::Column, top, bottom, left, rect.right, rect.right);
    PixelRect { left, top, right, bottom }
}


/// Shrinking only ever moves the sides inward: the result lies within the
/// given rectangle and stays normalised.
pub proof fn lemma_shrink_within(edges: &EdgeMap, rect: PixelRect)
    requires
        rect.left <= rect.right,
        rect.top <= rect.bottom,
    ensures
        ({
            let r = shrink_spec(edges, rect);
            &&& rect.left <= r.left <= r.right <= rect.right
            &&& rect.top <= r.top <= r.bottom <= rect.bottom
        }),
{
    if !(edges.spec_is_empty() || rect.right - rect.left < MIN_SHRINK_SIZE || rect.bottom - rect.top
        < MIN_SHRINK_SIZE) {
        let rows = line_probe(*edges, Axis::Row, rect.left as int, rect.right as int);
        let top = first_hit(rect.top as int, rect.bottom as int, rows, rect.top as int);
        lemma_first_hit(rect.top as int, rect.bottom as int, rows, rect.top as int);
        let bottom = last_hit(top, rect.bottom as int, rows, rect.bottom as int);
        lemma_last_hit(top, rect.bottom as int, rows, rect.bottom as int);
        let cols = line_probe(*edges, Axis::Column, top, bottom);
        let left = first_hit(rect.left as int, rect.right as int, cols, rect.left as int);
        lemma_first_hit(rect.left as int, rect.right as int, cols, rect.left as int);
        let right = last_hit(left, rect.right as int, cols, rect.right as int);
        lemma_last_hit(left, rect.right as int, cols, rect.right as int);
    }
}

/// Shrinking is idempotent: once each side rests on an edge, shrinking again
/// changes nothing.
pub proof fn lemma_shrink_idempotent(edges: &EdgeMap, rect: PixelRect)
    requires
        rect.left <= rect.right,
        rect.top <= rect.bottom,
    ensures
        shrink_spec(edges, shrink_spec(edges, rect)) == shrink_spec(edges, rect),
{
    lemma_shrink_within(edges, rect);
    if edges.spec_is_empty() || rect.right - rect.left < MIN_SHRINK_SIZE || rect.bottom - rect.top
        < MIN_SHRINK_SIZE {
        return;
    }
    let (l0, t0, r0, b0) = (rect.left as int, rect.top as int, rect.right as int, rect.bottom as int);
    let rows = line_probe(*edges, Axis::Row, l0, r0);
    let top = first_hit(t0, b0, rows, t0);
    lemma_first_hit(t0, b0, rows, t0);
    let bottom = last_hit(top, b0, rows, b0);
    lemma_last_hit(top, b0, rows, b0);
    let cols = line_probe(*edges, Axis::Column, top, bottom);
    let left = first_hit(l0, r0, cols, l0);
    lemma_first_hit(l0, r0, cols, l0);
    let right = last_hit(left, r0, cols, r0);
    lemma_last_hit(left, r0, cols, r0);
    let shrunk = shrink_spec(edges, rect);
    assert(shrunk.left == left && shrunk.top == top && shrunk.right == right && shrunk.bottom
        == bottom);

    if exists|v: int| t0 <= v <= b0 && #[trigger] rows(v) {
        // The top and bottom rows each carry an edge inside the given columns.
        assert(rows(top));
        assert(rows(bottom));
        let ct = choose|x: int| l0 <= x <= r0 && #[trigger] edges.cell(x, top);
        let cb = choose|x: int| l0 <= x <= r0 && #[trigger] edges.cell(x, bottom);
        assert(cols(ct));
        assert(cols(cb));
        // Those columns lie between the new left and right sides.
        assert(left <= ct <= right);
        assert(left <= cb <= right);
        assert(cols(left));
        assert(cols(right));
        if !(shrunk.right - shrunk.left < MIN_SHRINK_SIZE || shrunk.bottom - shrunk.top
            < MIN_SHRINK_SIZE) {
            let rows2 = line_probe(*edges, Axis::Row, left, right);
            assert(rows2(top));
            assert(rows2(bottom));
            assert(first_hit(top, bottom, rows2, top) == top);
            assert(last_hit(top, bottom, rows2, bottom) == bottom);
            assert(first_hit(left, right, cols, left) == left);
            assert(last_hit(left, right, cols, right) == right);
        }
    } else {
        // No row carries an edge, so no column does either: nothing moves.
        assert(top == t0 && bottom == b0);
        assert forall|c: int| l0 <= c <= r0 implies !#[trigger] cols(c) by {
            if cols(c) {
                let r = choose|y: int| top <= y <= bottom && #[trigger] edges.cell(c, y);
                assert(rows(r));
            }
        }
        assert(left == l0 && right == r0);
        assert(shrunk == rect);
    }
}


/// After a shrink that found content, each side rests on an edge: the top
/// and bottom rows each hold an edge pixel between the new left and right
/// sides, and the left and right columns each hold one between the new top
/// and bottom.
pub proof fn lemma_shrink_rests_on_edges(edges: &EdgeMap, rect: PixelRect)
    requires
        rect.left <= rect.right,
        rect.top <= rect.bottom,
        !edges.spec_is_empty(),
        rect.right - rect.left >= MIN_SHRINK_SIZE,
        rect.bottom - rect.top >= MIN_SHRINK_SIZE,
        exists|row: int|
            rect.top <= row <= rect.bottom && #[trigger] edges.row_has_edge(
                row,
                rect.left as int,
                rect.right as int,
            ),
    ensures
        ({
            let r = shrink_spec(edges, rect);
            &&& edges.row_has_edge(r.top as int, r.left as int, r.right as int)
            &&& edges.row_has_edge(r.bottom as int, r.left as int, r.right as int)
            &&& edges.col_has_edge(r.left as int, r.top as int, r.bottom as int)
            &&& edges.col_has_edge(r.right as int, r.top as int, r.bottom as int)
        }),
{
    lemma_shrink_within(edges, rect);
    let (l0, t0, r0, b0) = (rect.left as int, rect.top as int, rect.right as int, rect.bottom as int);
    let rows = line_probe(*edges, Axis::Row, l0, r0);
    let top = first_hit(t0, b0, rows, t0);
    lemma_first_hit(t0, b0, rows, t0);
    let bottom = last_hit(top, b0, rows, b0);
    lemma_last_hit(top, b0, rows, b0);
    let cols = line_probe(*edges, Axis::Column, top, bottom);
    let left = first_hit(l0, r0, cols, l0);
    lemma_first_hit(l0, r0, cols, l0);
    let right = last_hit(left, r0, cols, r0);
    lemma_last_hit(left, r0, cols, r0);
    let row = choose|row: int| t0 <= row <= b0 && #[trigger] edges.row_has_edge(row, l0, r0);
    assert(rows(row));
    assert(rows(top));
    assert(rows(bottom));
    let ct = choose|x: int| l0 <= x <= r0 && #[trigger] edges.cell(x, top);
    let cb = choose|x: int| l0 <= x <= r0 && #[trigger] edges.cell(x, bottom);
    assert(cols(ct));
    assert(cols(cb));
    assert(left <= ct <= right);
    assert(left <= cb <= right);
    assert(cols(left));
    assert(cols(right));
    let r = shrink_spec(edges, rect);
    assert(r.left == left && r.top == top && r.right == right && r.bottom == bottom);
    assert(edges.cell(ct, top));
    assert(edges.cell(cb, bottom));
}

/// Shrinking loses no content: every edge pixel inside the given rectangle
/// lies inside the shrunk one. With [`lemma_shrink_rests_on_edges`] this makes
/// the result exactly the bounding box of the content it encloses.
pub proof fn lemma_shrink_keeps_content(edges: &EdgeMap, rect: PixelRect, x: int, y: int)
    requires
        rect.left <= rect.right,
        rect.top <= rect.bottom,
        rect.left <= x <= rect.right,
        rect.top <= y <= rect.bottom,
        edges.cell(x, y),
    ensures
        ({
            let r = shrink_spec(edges, rect);
            &&& r.left <= x <= r.right
            &&& r.top <= y <= r.bottom
        }),
{
    lemma_shrink_within(edges, rect);
    if edges.spec_is_empty() || rect.right - rect.left < MIN_SHRINK_SIZE || rect.bottom - rect.top
        < MIN_SHRINK_SIZE {
        return;
    }
    let (l0, t0, r0, b0) = (rect.left as int, rect.top as int, rect.right as int, rect.bottom as int);
    let rows = line_probe(*edges, Axis::Row, l0, r0);
    assert(edges.row_has_edge(y, l0, r0));
    assert(rows(y));
    let top = first_hit(t0, b0, rows, t0);
    lemma_first_hit(t0, b0, rows, t0);
    assert(top <= y);
    let bottom = last_hit(top, b0, rows, b0);
    lemma_last_hit(top, b0, rows, b0);
    assert(y <= bottom);
    let cols = line_probe(*edges, Axis::Column, top, bottom);
    assert(edges.col_has_edge(x, top, bottom));
    assert(cols(x));
    let left = first_hit(l0, r0, cols, l0);
    lemma_first_hit(l0, r0, cols, l0);
    assert(left <= x);
    let right = last_hit(left, r0, cols, r0);
    lemma_last_hit(left, r0, cols, r0);
    assert(x <= right);
    let r = shrink_spec(edges, rect);
    assert(r.left == left && r.top == top && r.right == right && r.bottom == bottom);
}

} // verus!
