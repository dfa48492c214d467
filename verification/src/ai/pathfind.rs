use vstd::prelude::*;

use crate::ai::sparse_grid::{diff, sum, sum_fits, GridPos, SparseGrid};

verus! {

/// A point on the half-tile lattice: it stands at `(x / 2, z / 2)` in tile
/// units.
#[derive(Debug, Copy, Clone, PartialEq, Eq, Structural)]
pub struct HalfPos {
    pub x: i64,
    pub z: i64,
}

/// A point of a smoothed path: the start, a corner, or the end.
#[derive(Debug, Copy, Clone, PartialEq, Eq, Structural)]
pub enum PathPoint {
    Start,
    Corner(HalfPos),
    End,
}

/// Consecutive points of `path` are at most one tile apart on each axis.
pub open spec fn is_connected(path: Seq<GridPos>) -> bool {
    forall|i: int|
        1 <= i < path.len() ==> -1 <= #[trigger] path[i].x - path[i - 1].x <= 1 && -1 <= path[i].y
            - path[i - 1].y <= 1
}

/// Tells whether consecutive points of `path` are at most one tile apart on
/// each axis, which `smoothify_path` needs.
pub fn path_is_connected(path: &Vec<GridPos>) -> (r: bool)
    ensures
        r == is_connected(path@),
{
    let mut i: usize = 1;
    while i < path.len()
        invariant
            1 <= i,
            i <= path@.len() || path@.len() == 0,
            forall|k: int|
                1 <= k < i && k < path@.len() ==> -1 <= #[trigger] path@[k].x - path@[k - 1].x <= 1 && -1
                    <= path@[k].y - path@[k - 1].y <= 1,
        decreases path@.len() - i,
    {
        let dx = path[i].x as i64 - path[i - 1].x as i64;
        let dy = path[i].y as i64 - path[i - 1].y as i64;
        if dx < -1 || dx > 1 || dy < -1 || dy > 1 {
            assert(!(-1 <= path@[i as int].x - path@[i - 1].x <= 1 && -1 <= path@[i as int].y
                - path@[i - 1].y <= 1));
            return false;
        }
        i = i + 1;
    }
    true
}

/// The offsets of one step left, right, down and up, in that order.
pub open spec fn vn_steps() -> Seq<GridPos> {
    seq![
        GridPos { x: -1i32, y: 0i32 },
        GridPos { x: 1i32, y: 0i32 },
        GridPos { x: 0i32, y: -1i32 },
        GridPos { x: 0i32, y: 1i32 },
    ]
}

/// The tiles inside the grid reached from `p` by the first `k` of the steps
/// left, right, down and up, in that order, that have a navigation cost in
/// `grid`, each with its cost.
pub open spec fn neighbours(grid: SparseGrid<u8>, p: GridPos, k: int) -> Seq<(GridPos, u32)>
    decreases k,
{
    if k <= 0 {
        Seq::empty()
    } else {
        let o = vn_steps()[k - 1];
        let q = sum(p, o);
        let fits = i32::MIN <= p.x + o.x <= i32::MAX && i32::MIN <= p.y + o.y <= i32::MAX;
        if fits && grid.in_bounds(q) && grid.cell(q) is Some {
            neighbours(grid, p, k - 1).push((q, grid.cell(q)->0 as u32))
        } else {
            neighbours(grid, p, k - 1)
        }
    }
}

/// The successors of tile `p` for the path search: the tiles inside the grid
/// one step left, right, down or up that have a navigation cost, with that
/// cost.
pub fn successors(grid: &SparseGrid<u8>, p: GridPos) -> (r: Vec<(GridPos, u32)>)
    requires
        grid.wf(),
    ensures
        r@ == neighbours(*grid, p, 4),
{
    let offsets = GridPos::vn_offsets();
    let mut r: Vec<(GridPos, u32)> = Vec::new();
    let mut k: usize = 0;
    while k < 4
        invariant
            grid.wf(),
            k <= 4,
            offsets@ == vn_steps(),
            r@ == neighbours(*grid, p, k as int),
        decreases 4 - k,
    {
        let o = offsets[k];
        let x = p.x as i64 + o.x as i64;
        let y = p.y as i64 + o.y as i64;
        if i32::MIN as i64 <= x && x <= i32::MAX as i64 && i32::MIN as i64 <= y && y <= i32::MAX as i64 {
            let q = GridPos::new(x as i32, y as i32);
            assert(q == sum(p, offsets@[k as int]));
            if 0 <= q.x && 0 <= q.y && (q.x as u32) < grid.width() && (q.y as u32) < grid.height() {
                if let Some(cost) = grid.get(q) {
                    r.push((q, *cost as u32));
                }
            }
        }
        k = k + 1;
    }
    r
}

/// `q` is one tile left, right, down or up from `p`.
pub open spec fn is_step(p: GridPos, q: GridPos) -> bool {
    ||| q.y == p.y && (q.x == p.x - 1 || q.x == p.x + 1)
    ||| q.x == p.x && (q.y == p.y - 1 || q.y == p.y + 1)
}

/// `w` is a walk over the tiles of `costs`: it has a first point, and every
/// later point is one step from the point before it and has a cost.
pub open spec fn is_walk(costs: Map<GridPos, u8>, w: Seq<GridPos>) -> bool {
    &&& w.len() >= 1
    &&& forall|i: int|
        1 <= i < w.len() ==> is_step(w[i - 1], #[trigger] w[i]) && costs.contains_key(w[i])
}

/// What a walk costs: the cost of every tile it enters after its first.
pub open spec fn walk_cost(costs: Map<GridPos, u8>, w: Seq<GridPos>) -> int
    decreases w.len(),
{
    if w.len() <= 1 {
        0
    } else {
        walk_cost(costs, w.drop_last()) + costs[w.last()] as int
    }
}

/// `w` is a walk over `costs` from `from` to `to`.
pub open spec fn walk_between(costs: Map<GridPos, u8>, w: Seq<GridPos>, from: GridPos, to: GridPos) -> bool {
    &&& is_walk(costs, w)
    &&& w[0] == from
    &&& w.last() == to
}

/// Some walk over `costs` leads from `from` to `to`.
pub open spec fn reachable(costs: Map<GridPos, u8>, from: GridPos, to: GridPos) -> bool {
    exists|w: Seq<GridPos>| walk_between(costs, w, from, to)
}

proof fn lemma_neighbours_steps(grid: SparseGrid<u8>, p: GridPos, k: int, q: GridPos, c: u32)
    requires
        0 <= k <= 4,
    ensures
        neighbours(grid, p, k).contains((q, c)) ==> is_step(p, q) && grid@.contains_key(q) && c
            == grid@[q] as u32,
    decreases k,
{
    if k > 0 {
        lemma_neighbours_steps(grid, p, k - 1, q, c);
        let prev = neighbours(grid, p, k - 1);
        if neighbours(grid, p, k).contains((q, c)) && !prev.contains((q, c)) {
            let i = choose|i: int| 0 <= i < neighbours(grid, p, k).len() && neighbours(grid, p, k)[i] == (q, c);
            assert(i == prev.len());
        }
    }
}

proof fn lemma_neighbours_complete(grid: SparseGrid<u8>, p: GridPos, k: int, j: int)
    requires
        0 <= j < k <= 4,
        sum_fits(p, vn_steps()[j]),
        grid.in_bounds(sum(p, vn_steps()[j])),
        grid.cell(sum(p, vn_steps()[j])) is Some,
    ensures
        neighbours(grid, p, k).contains(
            (sum(p, vn_steps()[j]), grid.cell(sum(p, vn_steps()[j]))->0 as u32),
        ),
    decreases k,
{
    let e = (sum(p, vn_steps()[j]), grid.cell(sum(p, vn_steps()[j]))->0 as u32);
    let n = neighbours(grid, p, k);
    if j == k - 1 {
        assert(n[n.len() - 1] == e);
    } else {
        lemma_neighbours_complete(grid, p, k - 1, j);
        let prev = neighbours(grid, p, k - 1);
        let i = choose|i: int| 0 <= i < prev.len() && prev[i] == e;
        assert(n[i] == e);
    }
}

/// The successors of `p` are exactly the tiles one step from `p` that have a
/// cost in `grid`, each with that cost.
pub proof fn law_successors_are_steps(grid: SparseGrid<u8>, p: GridPos, q: GridPos, c: u32)
    ensures
        neighbours(grid, p, 4).contains((q, c)) <==> (is_step(p, q) && grid@.contains_key(q) && c
            == grid@[q] as u32),
{
    lemma_neighbours_steps(grid, p, 4, q, c);
    if is_step(p, q) && grid@.contains_key(q) && c == grid@[q] as u32 {
        let j = if q.x == p.x - 1 {
            0int
        } else if q.x == p.x + 1 {
            1int
        } else if q.y == p.y - 1 {
            2int
        } else {
            3int
        };
        assert(sum(p, vn_steps()[j]) == q);
        lemma_neighbours_complete(grid, p, 4, j);
    }
}

/// Squared Euclidean distance between two tiles.
pub open spec fn dist_sq(a: GridPos, b: GridPos) -> int {
    (a.x - b.x) * (a.x - b.x) + (a.y - b.y) * (a.y - b.y)
}

/// `r` is the square root of `d` rounded down.
pub open spec fn is_floor_sqrt(r: int, d: int) -> bool {
    0 <= r && r * r <= d < (r + 1) * (r + 1)
}

/// The square root of `d` rounded down.
pub open spec fn floor_sqrt(d: int) -> int {
    choose|r: int| is_floor_sqrt(r, d)
}

/// The path search's estimate of what it costs to go from `p` to `goal`:
/// their Euclidean distance rounded down, at most `u32::MAX`.
pub open spec fn estimate(p: GridPos, goal: GridPos) -> int {
    let r = floor_sqrt(dist_sq(p, goal));
    if r <= u32::MAX {
        r
    } else {
        u32::MAX as int
    }
}

proof fn lemma_floor_sqrt_unique(r: int, s: int, d: int)
    requires
        is_floor_sqrt(r, d),
        is_floor_sqrt(s, d),
    ensures
        r == s,
{
    if r < s {
        assert((r + 1) * (r + 1) <= s * s) by (nonlinear_arith)
            requires
                0 <= r + 1 <= s,
        ;
    } else if s < r {
        assert((s + 1) * (s + 1) <= r * r) by (nonlinear_arith)
            requires
                0 <= s + 1 <= r,
        ;
    }
}

proof fn lemma_floor_sqrt_exists(d: int)
    requires
        d >= 0,
    ensures
        is_floor_sqrt(floor_sqrt(d), d),
    decreases d,
{
    if d == 0 {
        assert(is_floor_sqrt(0, 0));
    } else {
        lemma_floor_sqrt_exists(d - 1);
        let r = floor_sqrt(d - 1);
        if d < (r + 1) * (r + 1) {
            assert(is_floor_sqrt(r, d));
        } else {
            assert(is_floor_sqrt(r + 1, d)) by (nonlinear_arith)
                requires
                    d == (r + 1) * (r + 1),
                    r >= 0,
            ;
        }
    }
}

proof fn lemma_floor_sqrt_is(r: int, d: int)
    requires
        is_floor_sqrt(r, d),
    ensures
        floor_sqrt(d) == r,
{
    lemma_floor_sqrt_unique(floor_sqrt(d), r, d);
}

/// The Euclidean distance between `a` and `b` rounded down, at most
/// `u32::MAX`: the estimate that the path search uses.
pub fn distance_floor(a: GridPos, b: GridPos) -> (r: u32)
    ensures
        r == estimate(a, b),
{
    let dx: i64 = a.x as i64 - b.x as i64;
    let dy: i64 = a.y as i64 - b.y as i64;
    let ux: u64 = if dx < 0 { (-dx) as u64 } else { dx as u64 };
    let uy: u64 = if dy < 0 { (-dy) as u64 } else { dy as u64 };
    assert(ux * ux < 0x1_0000_0000_0000_0000) by (nonlinear_arith)
        requires
            ux < 0x1_0000_0000,
    ;
    assert(uy * uy < 0x1_0000_0000_0000_0000) by (nonlinear_arith)
        requires
            uy < 0x1_0000_0000,
    ;
    let d: u128 = (ux * ux) as u128 + (uy * uy) as u128;
    assert(d == dist_sq(a, b)) by (nonlinear_arith)
        requires
            ux == dx || ux == -dx,
            uy == dy || uy == -dy,
            dx == a.x - b.x,
            dy == a.y - b.y,
            d == ux * ux + uy * uy,
    ;
    let mut lo: u128 = 0;
    let mut hi: u128 = 0x2_0000_0000;
    assert(d < hi * hi) by (nonlinear_arith)
        requires
            d < 0x2_0000_0000_0000_0000,
            hi == 0x2_0000_0000,
    ;
    while hi - lo > 1
        invariant
            lo < hi <= 0x2_0000_0000,
            lo * lo <= d < hi * hi,
        decreases hi - lo,
    {
        let mid: u128 = lo + (hi - lo) / 2;
        assert(mid * mid <= 0x4_0000_0000_0000_0000) by (nonlinear_arith)
            requires
                mid <= 0x2_0000_0000,
        ;
        if mid * mid <= d {
            lo = mid;
        } else {
            hi = mid;
        }
    }
    proof {
        lemma_floor_sqrt_is(lo as int, d as int);
    }
    if lo > u32::MAX as u128 {
        u32::MAX
    } else {
        lo as u32
    }
}

/// Under `costs`, the estimate from the first point of a walk that ends at
/// `goal` never exceeds what the walk costs.
pub open spec fn estimate_admissible(costs: Map<GridPos, u8>, goal: GridPos) -> bool {
    forall|w: Seq<GridPos>|
        #![trigger walk_cost(costs, w)]
        is_walk(costs, w) && w.last() == goal ==> estimate(w[0], goal) <= walk_cost(costs, w)
}

/// Every tile of `costs` costs at least one to enter.
pub open spec fn costs_positive(costs: Map<GridPos, u8>) -> bool {
    forall|q: GridPos| #[trigger] costs.contains_key(q) ==> costs[q] >= 1
}

/// The absolute value of `v`.
pub open spec fn abs(v: int) -> int {
    if v < 0 {
        -v
    } else {
        v
    }
}

proof fn lemma_walk_cost_bound(costs: Map<GridPos, u8>, w: Seq<GridPos>)
    requires
        is_walk(costs, w),
        costs_positive(costs),
    ensures
        walk_cost(costs, w) >= abs(w[0].x - w.last().x) + abs(w[0].y - w.last().y),
    decreases w.len(),
{
    if w.len() > 1 {
        let v = w.drop_last();
        assert forall|i: int| 1 <= i < v.len() implies is_step(v[i - 1], #[trigger] v[i])
            && costs.contains_key(v[i]) by {
            assert(v[i] == w[i] && v[i - 1] == w[i - 1]);
            assert(is_step(w[i - 1], w[i]));
        }
        lemma_walk_cost_bound(costs, v);
        assert(is_step(w[w.len() - 2], w[w.len() - 1]));
        assert(costs.contains_key(w[w.len() - 1]));
    }
}

/// Where every tile costs at least one to enter, the estimate is
/// admissible: it never exceeds what a walk to the goal costs.
pub proof fn law_estimate_admissible(costs: Map<GridPos, u8>, goal: GridPos)
    requires
        costs_positive(costs),
    ensures
        estimate_admissible(costs, goal),
{
    assert forall|w: Seq<GridPos>| is_walk(costs, w) && w.last() == goal implies estimate(w[0], goal)
        <= #[trigger] walk_cost(costs, w) by {
        lemma_walk_cost_bound(costs, w);
        let dx = w[0].x - goal.x;
        let dy = w[0].y - goal.y;
        let ax = abs(dx);
        let ay = abs(dy);
        let m = ax + ay;
        let d = dist_sq(w[0], goal);
        assert(d <= m * m) by (nonlinear_arith)
            requires
                d == dx * dx + dy * dy,
                m == ax + ay,
                ax == dx || ax == -dx,
                ay == dy || ay == -dy,
                ax >= 0,
                ay >= 0,
        ;
        let r = floor_sqrt(d);
        assert(d >= 0) by (nonlinear_arith)
            requires
                d == dx * dx + dy * dy,
        ;
        assert(is_floor_sqrt(r, d)) by {
            lemma_floor_sqrt_exists(d);
        }
        assert(r <= m) by (nonlinear_arith)
            requires
                r >= 0,
                m >= 0,
                r * r <= d,
                d <= m * m,
        ;
    }
}

/// Tells whether `a` and `b` are the same tile.
pub fn same_tile(a: &GridPos, b: GridPos) -> (r: bool)
    ensures
        r == (*a == b),
{
    a.x == b.x && a.y == b.y
}

/// What the path search over the tiles of `costs` returns when it starts at
/// `start` and stops on reaching `goal`: the path it found, both ends
/// included, with its cost, or nothing.
pub uninterp spec fn astar_result(costs: Map<GridPos, u8>, start: GridPos, goal: GridPos) -> Option<
    (Seq<GridPos>, u32),
>;

/// A search result with its path taken as a sequence.
pub open spec fn search_view(r: Option<(Vec<GridPos>, u32)>) -> Option<(Seq<GridPos>, u32)> {
    match r {
        Some((path, cost)) => Some((path@, cost)),
        None => None,
    }
}

/// The costs that a search over `grid` towards `goal` adds up stay within
/// `u32`: a path it records enters each tile of the grid at most once, for at
/// most 255 each, and the estimate it adds from a tile of the grid is at most
/// the number of steps from there to `goal`.
pub open spec fn search_fits(grid: SparseGrid<u8>, goal: GridPos) -> bool {
    255 * grid.spec_width() * grid.spec_height() + abs(goal.x as int) + abs(goal.y as int)
        + grid.spec_width() + grid.spec_height() <= u32::MAX
}

/// Calls `pathfinding::prelude::astar` from `start`, with `successors` on
/// `grid` as the successors, `distance_floor` to `goal` as the estimate, and
/// reaching `goal` as success; `astar_result` names what it returns. Its
/// documentation and source give the rest: a path it returns starts at
/// `start`, ends at `goal`, and moves from each tile to a successor of it; it
/// returns nothing only where no such path exists; and where the estimate
/// never exceeds the real cost, the path is a cheapest one and comes with its
/// cost. It adds costs in `u32`, which `requires` keeps from overflowing.
#[verifier::external_body]
fn astar_search(grid: &SparseGrid<u8>, start: GridPos, goal: GridPos) -> (r: Option<(Vec<GridPos>, u32)>)
    requires
        grid.wf(),
        search_fits(*grid, goal),
    ensures
        search_view(r) == astar_result(grid@, start, goal),
        r is Some <==> reachable(grid@, start, goal),
        r matches Some((path, _)) ==> walk_between(grid@, path@, start, goal),
        r matches Some((path, cost)) ==> (estimate_admissible(grid@, goal) ==> cost == walk_cost(grid@, path@)
            && forall|w: Seq<GridPos>| walk_between(grid@, w, start, goal) ==> cost <= walk_cost(grid@, w)),
{
    pathfinding::prelude::astar(
        &start,
        |p: &GridPos| successors(grid, *p),
        |p: &GridPos| distance_floor(*p, goal),
        |p: &GridPos| same_tile(p, goal),
    )
}

/// Searches a cheapest path over the navigation costs of `grid` from `from`
/// to `to`: the tiles it passes, both ends included, and what entering them
/// costs. It finds one exactly where some walk leads from `from` to `to`.
pub fn find_path(grid: &SparseGrid<u8>, from: GridPos, to: GridPos) -> (r: Option<(Vec<GridPos>, u32)>)
    requires
        grid.wf(),
        search_fits(*grid, to),
    ensures
        search_view(r) == astar_result(grid@, from, to),
        r is Some <==> reachable(grid@, from, to),
        r matches Some((path, _)) ==> walk_between(grid@, path@, from, to),
        r matches Some((path, cost)) ==> (costs_positive(grid@) ==> cost == walk_cost(grid@, path@)
            && forall|w: Seq<GridPos>| walk_between(grid@, w, from, to) ==> cost <= walk_cost(grid@, w)),
{
    let r = astar_search(grid, from, to);
    proof {
        if costs_positive(grid@) {
            law_estimate_admissible(grid@, to);
        }
    }
    r
}

proof fn lemma_walk_connected(costs: Map<GridPos, u8>, w: Seq<GridPos>)
    requires
        is_walk(costs, w),
    ensures
        is_connected(w),
{
    assert forall|i: int| 1 <= i < w.len() implies -1 <= #[trigger] w[i].x - w[i - 1].x <= 1 && -1
        <= w[i].y - w[i - 1].y <= 1 by {
        assert(is_step(w[i - 1], w[i]));
    }
}

/// The points to move through for a search result: its smoothed path, or
/// nothing where no path was found.
pub open spec fn planned(result: Option<(Seq<GridPos>, u32)>) -> Seq<PathPoint> {
    match result {
        Some((path, _)) => smoothed(path),
        None => Seq::empty(),
    }
}

/// Turns what the path search returned into the points to move through: the
/// smoothed path where a path was found, nothing where none was.
pub fn path_from_search(result: Option<(Vec<GridPos>, u32)>) -> (r: Vec<PathPoint>)
    requires
        result matches Some((path, _)) ==> is_connected(path@),
    ensures
        r@ == planned(search_view(result)),
{
    match result {
        Some((path, _)) => smoothify_path(&path),
        None => Vec::new(),
    }
}

/// Plans how to move over `grid` from `from` to `to`: the smoothed cheapest
/// path, or nothing where no walk leads there.
pub fn plan_path(grid: &SparseGrid<u8>, from: GridPos, to: GridPos) -> (r: Vec<PathPoint>)
    requires
        grid.wf(),
        search_fits(*grid, to),
    ensures
        r@ == planned(astar_result(grid@, from, to)),
        r@.len() == 0 <==> !reachable(grid@, from, to),
        r@.len() > 0 ==> r@[0] == PathPoint::Start && r@.last() == PathPoint::End,
{
    let result = find_path(grid, from, to);
    proof {
        if result is Some {
            lemma_walk_connected(grid@, (result->0).0@);
        }
    }
    path_from_search(result)
}

/// The step that reaches point `i` (no step for the first point).
pub open spec fn step_to(path: Seq<GridPos>, i: int) -> GridPos {
    if i >= 1 {
        diff(path[i], path[i - 1])
    } else {
        GridPos { x: 0, y: 0 }
    }
}

/// The path turns at point `i`: the step into it differs from a nonzero
/// step before it.
pub open spec fn turns_at(path: Seq<GridPos>, i: int) -> bool {
    let prev = step_to(path, i - 1);
    &&& step_to(path, i) != prev
    &&& prev != GridPos { x: 0, y: 0 }
}

/// The corner placed at turning point `i`: on the edge of tile `path[i]`
/// through which the path enters it.
pub open spec fn corner_at(path: Seq<GridPos>, i: int) -> HalfPos {
    let p = path[i];
    let d = step_to(path, i);
    let (ox, oz) = if d.x == 1 {
        (0int, 1int)
    } else if d.x == -1 {
        (2int, 1int)
    } else if d.y == 1 {
        (1int, 0int)
    } else if d.y == -1 {
        (1int, 2int)
    } else {
        (0int, 0int)
    };
    HalfPos { x: (2 * p.x + ox) as i64, z: (2 * p.y + oz) as i64 }
}

/// The corners at the turning points among the first `n` points, in order.
pub open spec fn corners(path: Seq<GridPos>, n: int) -> Seq<PathPoint>
    decreases n,
{
    if n <= 1 {
        Seq::empty()
    } else if turns_at(path, n - 1) {
        corners(path, n - 1).push(PathPoint::Corner(corner_at(path, n - 1)))
    } else {
        corners(path, n - 1)
    }
}

/// The smoothed form of `path`: nothing for an empty path, otherwise the
/// start, a corner at each turn, and the end.
pub open spec fn smoothed(path: Seq<GridPos>) -> Seq<PathPoint> {
    if path.len() == 0 {
        Seq::empty()
    } else {
        seq![PathPoint::Start] + corners(path, path.len() as int) + seq![PathPoint::End]
    }
}

proof fn lemma_corners_len(path: Seq<GridPos>, n: int)
    ensures
        corners(path, n).len() <= (if n >= 2 { n - 1 } else { 0 }),
    decreases n,
{
    if n > 1 {
        lemma_corners_len(path, n - 1);
    }
}

/// Replaces a path of tiles by the points where it turns: the start, one
/// point on each tile where the direction changes, and the end.
pub fn smoothify_path(path: &Vec<GridPos>) -> (r: Vec<PathPoint>)
    requires
        is_connected(path@),
    ensures
        r@ == smoothed(path@),
        path@.len() > 0 ==> 2 <= r@.len() <= path@.len() + 1,
{
    if path.len() == 0 {
        return Vec::new();
    }
    let mut res = Vec::new();
    res.push(PathPoint::Start);
    let no_dir = GridPos::new(0, 0);
    let mut dir = no_dir;
    let mut curr = path[0];
    let mut i: usize = 1;
    while i < path.len()
        invariant
            1 <= i <= path@.len(),
            is_connected(path@),
            curr == path@[i - 1],
            no_dir == (GridPos { x: 0, y: 0 }),
            dir == step_to(path@, i - 1),
            res@ == seq![PathPoint::Start] + corners(path@, i as int),
        decreases path@.len() - i,
    {
        let p = path[i];
        let new_dir = p - curr;
        assert(new_dir == step_to(path@, i as int));
        if new_dir != dir && dir != no_dir {
            let hx = 2 * (p.x as i64);
            let hz = 2 * (p.y as i64);
            let corner = if new_dir.x == 1 {
                HalfPos { x: hx, z: hz + 1 }
            } else if new_dir.x == -1 {
                HalfPos { x: hx + 2, z: hz + 1 }
            } else if new_dir.y == 1 {
                HalfPos { x: hx + 1, z: hz }
            } else if new_dir.y == -1 {
                HalfPos { x: hx + 1, z: hz + 2 }
            } else {
                HalfPos { x: hx, z: hz }
            };
            assert(corner == corner_at(path@, i as int));
            assert(turns_at(path@, i as int));
            assert(corners(path@, i + 1) == corners(path@, i as int).push(PathPoint::Corner(corner)));
            res.push(PathPoint::Corner(corner));
            assert(res@ =~= seq![PathPoint::Start] + corners(path@, i + 1));
        } else {
            assert(!turns_at(path@, i as int));
            assert(corners(path@, i + 1) == corners(path@, i as int));
        }
        dir = new_dir;
        curr = p;
        i = i + 1;
    }
    res.push(PathPoint::End);
    proof {
        lemma_corners_len(path@, path@.len() as int);
    }
    res
}

proof fn lemma_straight_corners(path: Seq<GridPos>, n: int)
    requires
        forall|i: int| 2 <= i < path.len() ==> #[trigger] step_to(path, i) == step_to(path, i - 1),
        n <= path.len(),
    ensures
        corners(path, n) == Seq::<PathPoint>::empty(),
    decreases n,
{
    if n > 1 {
        lemma_straight_corners(path, n - 1);
        if n - 1 >= 2 {
            assert(step_to(path, n - 1) == step_to(path, n - 2));
        }
    }
}

/// A path that keeps one direction has no corners: it is smoothed to its
/// start and its end.
pub proof fn law_straight_path(path: Seq<GridPos>)
    requires
        path.len() > 0,
        forall|i: int| 2 <= i < path.len() ==> #[trigger] step_to(path, i) == step_to(path, i - 1),
    ensures
        smoothed(path) == seq![PathPoint::Start, PathPoint::End],
{
    lemma_straight_corners(path, path.len() as int);
    assert(smoothed(path) =~= seq![PathPoint::Start, PathPoint::End]);
}

} // verus!
