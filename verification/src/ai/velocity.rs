use vstd::prelude::*;

use crate::ai::ground::Ground;
use crate::ai::sparse_grid::GridPos;

verus! {

/// The tile `c` lies on the ground.
pub open spec fn on_ground(g: Ground, c: GridPos) -> bool {
    &&& 0 <= c.x < g.tiles().spec_width()
    &&& 0 <= c.y < g.tiles().spec_height()
}

/// `c` shifted by `(dx, dy)`.
pub open spec fn shifted(c: GridPos, dx: int, dy: int) -> GridPos {
    GridPos { x: (c.x + dx) as i32, y: (c.y + dy) as i32 }
}

/// The tile `c` and its eight neighbours all have material.
pub open spec fn is_refuge(g: Ground, c: GridPos) -> bool {
    forall|dx: int, dy: int|
        -1 <= dx <= 1 && -1 <= dy <= 1 ==> (#[trigger] g.tiles().cell(shifted(c, dx, dy))) is Some
}

fn has_tile(ground: &Ground, c: GridPos) -> (r: bool)
    requires
        ground.wf(),
    ensures
        r == ground.tiles().cell(c) is Some,
{
    ground.get_tile(c).is_some()
}

fn is_refuge_tile(ground: &Ground, c: GridPos) -> (r: bool)
    requires
        ground.wf(),
        i32::MIN < c.x < i32::MAX,
        i32::MIN < c.y < i32::MAX,
    ensures
        r == is_refuge(*ground, c),
{
    let r = has_tile(ground, c) && has_tile(ground, GridPos::new(c.x + 1, c.y))
        && has_tile(ground, GridPos::new(c.x + 1, c.y - 1))
        && has_tile(ground, GridPos::new(c.x, c.y - 1))
        && has_tile(ground, GridPos::new(c.x - 1, c.y - 1))
        && has_tile(ground, GridPos::new(c.x - 1, c.y))
        && has_tile(ground, GridPos::new(c.x - 1, c.y + 1))
        && has_tile(ground, GridPos::new(c.x, c.y + 1))
        && has_tile(ground, GridPos::new(c.x + 1, c.y + 1));
    proof {
        assert(shifted(c, 0, 0) == c);
        assert(shifted(c, 1, 0) == GridPos { x: (c.x + 1) as i32, y: c.y });
        assert(shifted(c, 1, -1) == GridPos { x: (c.x + 1) as i32, y: (c.y - 1) as i32 });
        assert(shifted(c, 0, -1) == GridPos { x: c.x, y: (c.y - 1) as i32 });
        assert(shifted(c, -1, -1) == GridPos { x: (c.x - 1) as i32, y: (c.y - 1) as i32 });
        assert(shifted(c, -1, 0) == GridPos { x: (c.x - 1) as i32, y: c.y });
        assert(shifted(c, -1, 1) == GridPos { x: (c.x - 1) as i32, y: (c.y + 1) as i32 });
        assert(shifted(c, 0, 1) == GridPos { x: c.x, y: (c.y + 1) as i32 });
        assert(shifted(c, 1, 1) == GridPos { x: (c.x + 1) as i32, y: (c.y + 1) as i32 });
        if r {
            assert forall|dx: int, dy: int| -1 <= dx <= 1 && -1 <= dy <= 1 implies
                (#[trigger] ground.tiles().cell(shifted(c, dx, dy))) is Some by {
                if dx == 0 && dy == 0 {
                } else if dx == 1 && dy == 0 {
                } else if dx == 1 && dy == -1 {
                } else if dx == 0 && dy == -1 {
                } else if dx == -1 && dy == -1 {
                } else if dx == -1 && dy == 0 {
                } else if dx == -1 && dy == 1 {
                } else if dx == 0 && dy == 1 {
                } else {
                    assert(dx == 1 && dy == 1);
                }
            }
        }
    }
    r
}

/// Where a unit stuck on the tile `start`, which lies on the ground but has
/// no material, is moved to: the first tile to its right, within 199 tiles
/// and on the ground, that is a refuge (has material, as do its eight
/// neighbours). `None` when there is none, or when `start` is not such a
/// stuck tile.
pub fn escape_tile(ground: &Ground, start: GridPos) -> (r: Option<GridPos>)
    requires
        ground.wf(),
        ground.tiles().spec_width() < i32::MAX,
        ground.tiles().spec_height() < i32::MAX,
    ensures
        !(on_ground(*ground, start) && ground.tiles().cell(start) is None) ==> r is None,
        r is Some ==> {
            let c = r->0;
            &&& c.y == start.y
            &&& 1 <= c.x - start.x < 200
            &&& on_ground(*ground, c)
            &&& is_refuge(*ground, c)
            &&& ground.tiles().cell(GridPos { x: (c.x + 0) as i32, y: (c.y + 0) as i32 }) is Some
            &&& ground.tiles().cell(GridPos { x: (c.x + 1) as i32, y: (c.y + 0) as i32 }) is Some
            &&& ground.tiles().cell(GridPos { x: (c.x + 1) as i32, y: (c.y + -1) as i32 }) is Some
            &&& ground.tiles().cell(GridPos { x: (c.x + 0) as i32, y: (c.y + -1) as i32 }) is Some
            &&& ground.tiles().cell(GridPos { x: (c.x + -1) as i32, y: (c.y + -1) as i32 }) is Some
            &&& ground.tiles().cell(GridPos { x: (c.x + -1) as i32, y: (c.y + 0) as i32 }) is Some
            &&& ground.tiles().cell(GridPos { x: (c.x + -1) as i32, y: (c.y + 1) as i32 }) is Some
            &&& ground.tiles().cell(GridPos { x: (c.x + 0) as i32, y: (c.y + 1) as i32 }) is Some
            &&& ground.tiles().cell(GridPos { x: (c.x + 1) as i32, y: (c.y + 1) as i32 }) is Some
            &&& forall|k: int| 1 <= k < c.x - start.x ==> !is_refuge(*ground, #[trigger] shifted(start, k, 0))
        },
        r is None && on_ground(*ground, start) && ground.tiles().cell(start) is None ==> forall|k: int|
            1 <= k < 200 && start.x + k < ground.tiles().spec_width() ==> !is_refuge(
                *ground,
                #[trigger] shifted(start, k, 0),
            ),
{
    let w = ground.width() as i32;
    let h = ground.height() as i32;
    if !(0 <= start.x && start.x < w && 0 <= start.y && start.y < h) || has_tile(ground, start) {
        return None;
    }
    let mut i: i32 = 1;
    while i < 200
        invariant
            ground.wf(),
            w == ground.tiles().spec_width(),
            h == ground.tiles().spec_height(),
            w < i32::MAX,
            h < i32::MAX,
            on_ground(*ground, start),
            ground.tiles().cell(start) is None,
            1 <= i <= 200,
            start.x + i - 1 < w,
            forall|k: int| 1 <= k < i ==> !is_refuge(*ground, #[trigger] shifted(start, k, 0)),
        decreases 200 - i,
    {
        let c = GridPos::new(start.x + i, start.y);
        if c.x >= w {
            return None;
        }
        assert(c == shifted(start, i as int, 0));
        if is_refuge_tile(ground, c) {
            proof {
                law_refuge_is_nine_tiles(*ground, c);
            }
            return Some(c);
        }
        i = i + 1;
    }
    None
}

/// A refuge is exactly a tile that has material, as do its eight
/// neighbours: left, right, below, above and the four diagonals.
pub proof fn law_refuge_is_nine_tiles(g: Ground, c: GridPos)
    ensures
        is_refuge(g, c) <==> {
            &&& g.tiles().cell(GridPos { x: (c.x + 0) as i32, y: (c.y + 0) as i32 }) is Some
            &&& g.tiles().cell(GridPos { x: (c.x + 1) as i32, y: (c.y + 0) as i32 }) is Some
            &&& g.tiles().cell(GridPos { x: (c.x + 1) as i32, y: (c.y + -1) as i32 }) is Some
            &&& g.tiles().cell(GridPos { x: (c.x + 0) as i32, y: (c.y + -1) as i32 }) is Some
            &&& g.tiles().cell(GridPos { x: (c.x + -1) as i32, y: (c.y + -1) as i32 }) is Some
            &&& g.tiles().cell(GridPos { x: (c.x + -1) as i32, y: (c.y + 0) as i32 }) is Some
            &&& g.tiles().cell(GridPos { x: (c.x + -1) as i32, y: (c.y + 1) as i32 }) is Some
            &&& g.tiles().cell(GridPos { x: (c.x + 0) as i32, y: (c.y + 1) as i32 }) is Some
            &&& g.tiles().cell(GridPos { x: (c.x + 1) as i32, y: (c.y + 1) as i32 }) is Some
        },
{
    assert(shifted(c, 0, 0) == GridPos { x: (c.x + 0) as i32, y: (c.y + 0) as i32 });
    assert(shifted(c, 1, 0) == GridPos { x: (c.x + 1) as i32, y: (c.y + 0) as i32 });
    assert(shifted(c, 1, -1) == GridPos { x: (c.x + 1) as i32, y: (c.y + -1) as i32 });
    assert(shifted(c, 0, -1) == GridPos { x: (c.x + 0) as i32, y: (c.y + -1) as i32 });
    assert(shifted(c, -1, -1) == GridPos { x: (c.x + -1) as i32, y: (c.y + -1) as i32 });
    assert(shifted(c, -1, 0) == GridPos { x: (c.x + -1) as i32, y: (c.y + 0) as i32 });
    assert(shifted(c, -1, 1) == GridPos { x: (c.x + -1) as i32, y: (c.y + 1) as i32 });
    assert(shifted(c, 0, 1) == GridPos { x: (c.x + 0) as i32, y: (c.y + 1) as i32 });
    assert(shifted(c, 1, 1) == GridPos { x: (c.x + 1) as i32, y: (c.y + 1) as i32 });
    if !is_refuge(g, c) {
        let (dx, dy) = choose|dx: int, dy: int|
            !(-1 <= dx <= 1 && -1 <= dy <= 1 ==> (#[trigger] g.tiles().cell(shifted(c, dx, dy))) is Some);
        assert(g.tiles().cell(shifted(c, dx, dy)) is None);
    }
}

} // verus!
