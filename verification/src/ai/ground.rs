use vstd::prelude::*;

use crate::ai::pathfind::costs_positive;
use crate::ai::sparse_grid::{
    law_get_after_insert, law_get_after_remove, law_in_bounds_cells_distinct, next_pow2, sum, GridPos,
    SparseGrid,
};

verus! {

/// A ground material: its colour as 8-bit RGBA and the cost of walking on it
/// (never 0).
#[derive(Debug, Clone)]
pub struct GroundMaterial {
    pub color: [u8; 4],
    pub nav_cost: u8,
}

/// An index into the ground's palette of materials.
#[derive(Debug, Copy, Clone)]
pub struct GroundMaterialRef(u16);

impl GroundMaterialRef {
    /// The palette index.
    pub closed spec fn id(self) -> nat {
        self.0 as nat
    }
}

impl Default for GroundMaterialRef {
    fn default() -> (r: Self)
        ensures
            r.id() == 0,
    {
        GroundMaterialRef(0)
    }
}

/// The materials that the ground painter offers.
#[derive(PartialEq, Eq, Structural)]
pub enum GroundMaterials {
    Nothing,
    Grass,
    Road,
}

impl Default for GroundMaterials {
    fn default() -> (r: Self)
        ensures
            r == GroundMaterials::Nothing,
    {
        GroundMaterials::Nothing
    }
}

impl GroundMaterials {
    pub fn to_material_ref(&self) -> (r: Option<GroundMaterialRef>)
        ensures
            match *self {
                GroundMaterials::Nothing => r is None,
                GroundMaterials::Grass => r is Some && r->0.id() == 0,
                GroundMaterials::Road => r is Some && r->0.id() == 1,
            },
    {
        match &self {
            GroundMaterials::Nothing => None,
            GroundMaterials::Grass => Some(Ground::grass()),
            GroundMaterials::Road => Some(Ground::road()),
        }
    }
}

/// An area of the ground, `left <= x < right`, `bottom <= y < top`.
#[derive(Debug, Copy, Clone, PartialEq, Eq, Structural)]
pub struct Rect {
    pub left: i32,
    pub right: i32,
    pub top: i32,
    pub bottom: i32,
}

/// Colour of a tile that holds no material.
pub open spec fn black() -> Seq<u8> {
    seq![0u8, 0u8, 0u8, 255u8]
}

/// The ground: a grid of material tiles, the matching grid of navigation
/// costs, and the areas whose picture is out of date.
#[derive(Debug, Clone)]
pub struct Ground {
    pub entity: Option<u64>,
    palette: Vec<GroundMaterial>,
    tiles: SparseGrid<GroundMaterialRef>,
    nav_grid: SparseGrid<u8>,
    dirty_rects: Vec<Rect>,
}

/// The navigation cost of tile `t` under `palette`.
pub open spec fn cost_of(palette: Seq<GroundMaterial>, t: Option<GroundMaterialRef>) -> Option<u8> {
    match t {
        Some(r) => Some(palette[r.id() as int].nav_cost),
        None => None,
    }
}

impl Ground {
    pub closed spec fn spec_entity(self) -> Option<u64> {
        self.entity
    }

    pub closed spec fn palette(self) -> Seq<GroundMaterial> {
        self.palette@
    }

    pub closed spec fn tiles(self) -> SparseGrid<GroundMaterialRef> {
        self.tiles
    }

    pub closed spec fn nav(self) -> SparseGrid<u8> {
        self.nav_grid
    }

    pub closed spec fn dirty(self) -> Seq<Rect> {
        self.dirty_rects@
    }

    /// The invariant: both grids are well formed and of one shape, every tile
    /// names a palette entry, every cost is nonzero, and each navigation cell
    /// holds the cost of the tile stored at the same place.
    pub open spec fn wf(self) -> bool {
        &&& self.tiles().wf()
        &&& self.nav().wf()
        &&& self.tiles().same_shape(self.nav())
        &&& self.palette().len() <= 0xffff
        &&& forall|i: int| 0 <= i < self.palette().len() ==> #[trigger] self.palette()[i].nav_cost > 0
        &&& forall|i: int|
            0 <= i < self.tiles().cells().len() && (#[trigger] self.tiles().cells()[i]) is Some
                ==> self.tiles().cells()[i]->0.id() < self.palette().len()
        &&& forall|i: int|
            0 <= i < self.tiles().cells().len() ==> #[trigger] self.nav().cells()[i] == cost_of(
                self.palette(),
                self.tiles().cells()[i],
            )
    }

    pub fn grass() -> (r: GroundMaterialRef)
        ensures
            r.id() == 0,
    {
        GroundMaterialRef(0)
    }

    pub fn road() -> (r: GroundMaterialRef)
        ensures
            r.id() == 1,
    {
        GroundMaterialRef(1)
    }

    /// A `width x height` ground covered with grass.
    pub fn new(width: u32, height: u32) -> (r: Self)
        requires
            width <= 0x8000_0000,
            next_pow2(width as nat) * height <= usize::MAX,
        ensures
            r.wf(),
            r.spec_entity() is None,
            r.tiles().spec_width() == width,
            r.tiles().spec_height() == height,
            r.palette() == seq![
                GroundMaterial { color: [76u8, 127u8, 76u8, 255u8], nav_cost: 32u8 },
                GroundMaterial { color: [204u8, 178u8, 127u8, 255u8], nav_cost: 1u8 },
            ],
            forall|i: int|
                0 <= i < r.tiles().cells().len() ==> (#[trigger] r.tiles().cells()[i]) is Some
                    && r.tiles().cells()[i]->0.id() == 0,
            r.dirty().len() == 0,
    {
        let grass = GroundMaterial { color: [76, 127, 76, 255], nav_cost: 32 };
        let grass_nav_cost = grass.nav_cost;
        let road = GroundMaterial { color: [204, 178, 127, 255], nav_cost: 1 };
        let mut palette = Vec::new();
        palette.push(grass);
        palette.push(road);
        let tiles = SparseGrid::new(width, height, Some(Self::grass()));
        let nav_grid = SparseGrid::new(width, height, Some(grass_nav_cost));
        let r = Self { entity: None, palette, tiles, nav_grid, dirty_rects: Vec::new() };
        assert(r.palette() =~= seq![
            GroundMaterial { color: [76u8, 127u8, 76u8, 255u8], nav_cost: 32u8 },
            GroundMaterial { color: [204u8, 178u8, 127u8, 255u8], nav_cost: 1u8 },
        ]);
        r
    }

    #[inline]
    pub fn width(&self) -> (r: u32)
        requires
            self.wf(),
        ensures
            r == self.tiles().spec_width(),
    {
        self.tiles.width()
    }

    #[inline]
    pub fn height(&self) -> (r: u32)
        requires
            self.wf(),
        ensures
            r == self.tiles().spec_height(),
    {
        self.tiles.height()
    }

    /// Appends `tile` to the palette and returns its index.
    pub fn register_ground_material(&mut self, tile: GroundMaterial) -> (r: GroundMaterialRef)
        requires
            old(self).wf(),
            old(self).palette().len() < 0xffff,
            tile.nav_cost > 0,
        ensures
            final(self).wf(),
            r.id() == old(self).palette().len(),
            final(self).palette() == old(self).palette().push(tile),
            final(self).tiles() == old(self).tiles(),
            final(self).nav() == old(self).nav(),
            final(self).dirty() == old(self).dirty(),
            final(self).spec_entity() == old(self).spec_entity(),
    {
        let id = self.palette.len();
        self.palette.push(tile);
        proof {
            assert forall|i: int|
                0 <= i < self.tiles().cells().len() implies #[trigger] self.nav().cells()[i]
                == cost_of(self.palette(), self.tiles().cells()[i]) by {
                assert(old(self).nav().cells()[i] == cost_of(old(self).palette(), old(self).tiles().cells()[i]));
                if self.tiles().cells()[i] is Some {
                    assert(self.palette()[self.tiles().cells()[i]->0.id() as int] == old(self).palette()[self.tiles().cells()[i]->0.id() as int]);
                }
            }
        }
        GroundMaterialRef(id as u16)
    }

    pub fn nav_grid(&self) -> (r: &SparseGrid<u8>)
        ensures
            *r == self.nav(),
    {
        &self.nav_grid
    }

    pub fn get_tile_ref(&self, pos: GridPos) -> (r: Option<GroundMaterialRef>)
        requires
            self.wf(),
        ensures
            r == self.tiles().cell(pos),
    {
        match self.tiles.get(pos) {
            Some(id) => Some(*id),
            None => None,
        }
    }

    pub fn get_tile(&self, pos: GridPos) -> (r: Option<&GroundMaterial>)
        requires
            self.wf(),
        ensures
            r is Some <==> self.tiles().cell(pos) is Some,
            r is Some ==> *r->0 == self.palette()[self.tiles().cell(pos)->0.id() as int],
    {
        match self.tiles.get(pos) {
            Some(id) => Some(&self.palette[id.0 as usize]),
            None => None,
        }
    }

    /// The rectangle covering the single tile `(x, y)`.
    pub open spec fn pos_rect(x: i32, y: i32) -> Rect {
        Rect { left: x, right: (x + 1) as i32, top: (y + 1) as i32, bottom: y }
    }

    /// Puts material `tile` at `pos`, with its navigation cost, and marks the
    /// tile for redrawing when `add_dirty_pos` holds.
    pub fn set_tile(&mut self, pos: GridPos, tile: GroundMaterialRef, add_dirty_pos: bool)
        requires
            old(self).wf(),
            tile.id() < old(self).palette().len(),
            add_dirty_pos ==> pos.x < i32::MAX && pos.y < i32::MAX,
        ensures
            final(self).wf(),
            final(self).palette() == old(self).palette(),
            final(self).spec_entity() == old(self).spec_entity(),
            final(self).tiles().same_shape(old(self).tiles()),
            final(self).tiles().cells() == old(self).tiles().after_insert(pos, tile),
            final(self).nav().cells() == old(self).nav().after_insert(
                pos,
                old(self).palette()[tile.id() as int].nav_cost,
            ),
            final(self).dirty() == (if add_dirty_pos {
                old(self).dirty().push(Self::pos_rect(pos.x, pos.y))
            } else {
                old(self).dirty()
            }),
    {
        self.tiles.insert(pos, tile);
        let cost = self.palette[tile.0 as usize].nav_cost;
        self.nav_grid.insert(pos, cost);
        if add_dirty_pos {
            self.add_dirty_pos(pos.x, pos.y);
        }
        proof {
            assert forall|i: int|
                0 <= i < self.tiles().cells().len() implies #[trigger] self.nav().cells()[i]
                == cost_of(self.palette(), self.tiles().cells()[i]) by {
                assert(old(self).nav().cells()[i] == cost_of(old(self).palette(), old(self).tiles().cells()[i]));
            }
        }
    }

    /// Removes the material at `pos`, and its navigation cost, and marks the
    /// tile for redrawing when `add_dirty_pos` holds.
    pub fn clear_tile(&mut self, pos: GridPos, add_dirty_pos: bool)
        requires
            old(self).wf(),
            add_dirty_pos ==> pos.x < i32::MAX && pos.y < i32::MAX,
        ensures
            final(self).wf(),
            final(self).palette() == old(self).palette(),
            final(self).spec_entity() == old(self).spec_entity(),
            final(self).tiles().same_shape(old(self).tiles()),
            final(self).tiles().cells() == old(self).tiles().after_remove(pos),
            final(self).nav().cells() == old(self).nav().after_remove(pos),
            final(self).dirty() == (if add_dirty_pos {
                old(self).dirty().push(Self::pos_rect(pos.x, pos.y))
            } else {
                old(self).dirty()
            }),
    {
        self.tiles.remove(pos);
        self.nav_grid.remove(pos);
        if add_dirty_pos {
            self.add_dirty_pos(pos.x, pos.y);
        }
        proof {
            assert forall|i: int|
                0 <= i < self.tiles().cells().len() implies #[trigger] self.nav().cells()[i]
                == cost_of(self.palette(), self.tiles().cells()[i]) by {
                assert(old(self).nav().cells()[i] == cost_of(old(self).palette(), old(self).tiles().cells()[i]));
            }
        }
    }

    pub fn add_dirty_rect(&mut self, rect: Rect)
        ensures
            final(self).dirty() == old(self).dirty().push(rect),
            final(self).palette() == old(self).palette(),
            final(self).tiles() == old(self).tiles(),
            final(self).nav() == old(self).nav(),
            final(self).spec_entity() == old(self).spec_entity(),
    {
        self.dirty_rects.push(rect);
    }

    pub fn add_dirty_pos(&mut self, x: i32, y: i32)
        requires
            x < i32::MAX,
            y < i32::MAX,
        ensures
            final(self).dirty() == old(self).dirty().push(Self::pos_rect(x, y)),
            final(self).palette() == old(self).palette(),
            final(self).tiles() == old(self).tiles(),
            final(self).nav() == old(self).nav(),
            final(self).spec_entity() == old(self).spec_entity(),
    {
        self.dirty_rects.push(Rect { left: x, right: x + 1, top: y + 1, bottom: y });
    }

    /// The colour bytes drawn for the tile at `(x, y)`.
    pub open spec fn tile_color(self, x: int, y: int) -> Seq<u8> {
        match self.tiles().cell(GridPos { x: x as i32, y: y as i32 }) {
            Some(t) => self.palette()[t.id() as int].color@,
            None => black(),
        }
    }

    /// The image `data` with the tiles `x .. right` of row `y` drawn, left to right.
    pub open spec fn paint_row(self, data: Seq<u8>, y: int, x: int, right: int) -> Seq<u8>
        decreases right - x,
    {
        if x >= right {
            data
        } else {
            self.paint_row(
                put_pixel(data, y * self.tiles().spec_width() + x, self.tile_color(x, y)),
                y,
                x + 1,
                right,
            )
        }
    }

    /// The image `data` with rows `y .. r.top` of `r` drawn, bottom to top.
    pub open spec fn paint_rows(self, data: Seq<u8>, r: Rect, y: int) -> Seq<u8>
        decreases r.top - y,
    {
        if y >= r.top {
            data
        } else {
            self.paint_rows(self.paint_row(data, y, r.left as int, r.right as int), r, y + 1)
        }
    }

    /// The image `data` with every rectangle of `rects` drawn, in order.
    pub open spec fn paint_rects(self, data: Seq<u8>, rects: Seq<Rect>) -> Seq<u8>
        decreases rects.len(),
    {
        if rects.len() == 0 {
            data
        } else {
            self.paint_rects(self.paint_rows(data, rects[0], rects[0].bottom as int), rects.drop_first())
        }
    }

    fn paint_dirty(&self, data: &mut Vec<u8>)
        requires
            self.wf(),
        ensures
            final(data)@ == self.paint_rects(old(data)@, self.dirty()),
    {
        let w = self.width() as i64;
        let ghost start = data@;
        let mut k: usize = 0;
        assert(self.dirty().subrange(0, self.dirty().len() as int) =~= self.dirty());
        while k < self.dirty_rects.len()
            invariant
                self.wf(),
                w == self.tiles().spec_width(),
                k <= self.dirty().len(),
                self.paint_rects(start, self.dirty()) == self.paint_rects(
                    data@,
                    self.dirty().subrange(k as int, self.dirty().len() as int),
                ),
            decreases self.dirty().len() - k,
        {
            let rect = self.dirty_rects[k];
            proof {
                let rest = self.dirty().subrange(k as int, self.dirty().len() as int);
                assert(rest[0] == rect);
                assert(rest.drop_first() =~= self.dirty().subrange(k + 1, self.dirty().len() as int));
            }
            let ghost before_rect = data@;
            let mut y = rect.bottom;
            while y < rect.top
                invariant
                    self.wf(),
                    w == self.tiles().spec_width(),
                    self.paint_rows(before_rect, rect, rect.bottom as int) == self.paint_rows(data@, rect, y as int),
                decreases rect.top - y,
            {
                let ghost before_row = data@;
                let mut x = rect.left;
                while x < rect.right
                    invariant
                        self.wf(),
                        w == self.tiles().spec_width(),
                        y < rect.top,
                        self.paint_row(before_row, y as int, rect.left as int, rect.right as int)
                            == self.paint_row(data@, y as int, x as int, rect.right as int),
                    decreases rect.right - x,
                {
                    let color = match self.tiles.get(GridPos { x, y }) {
                        Some(t) => self.palette[t.0 as usize].color,
                        None => [0u8, 0u8, 0u8, 255u8],
                    };
                    proof {
                        assert(color@ == self.tile_color(x as int, y as int));
                    }
                    assert(-0x8000_0000 * 0x8000_0000 <= (y as i64) * w <= 0x8000_0000 * 0x8000_0000) by (nonlinear_arith)
                        requires
                            -0x8000_0000 <= y < 0x8000_0000,
                            0 <= w <= 0x8000_0000,
                    ;
                    let p = (y as i64) * w + (x as i64);
                    let ghost d = data@;
                    if p >= 0 && (p as u64) < (data.len() / 4) as u64 {
                        let b = (p as usize) * 4;
                        data.set(b, color[0]);
                        data.set(b + 1, color[1]);
                        data.set(b + 2, color[2]);
                        data.set(b + 3, color[3]);
                        assert(data@ =~= put_pixel(d, p as int, color@));
                    } else {
                        assert(put_pixel(d, p as int, color@) == d);
                    }
                    x = x + 1;
                }
                y = y + 1;
            }
            k = k + 1;
        }
        assert(self.dirty().subrange(k as int, self.dirty().len() as int) =~= Seq::<Rect>::empty());
    }

    /// Some area of the ground is out of date.
    pub fn has_dirty_rects(&self) -> (r: bool)
        ensures
            r == (self.dirty().len() > 0),
    {
        !self.dirty_rects.is_empty()
    }

    /// Draws every out-of-date area of the ground into `data`, an RGBA8 image
    /// `width()` pixels wide, then forgets the areas. Pixels that fall
    /// outside `data` are skipped.
    pub fn write_dirty_pixels(&mut self, data: &mut Vec<u8>)
        requires
            old(self).wf(),
        ensures
            final(data)@ == old(self).paint_rects(old(data)@, old(self).dirty()),
            final(self).wf(),
            final(self).dirty().len() == 0,
            final(self).palette() == old(self).palette(),
            final(self).tiles() == old(self).tiles(),
            final(self).nav() == old(self).nav(),
            final(self).spec_entity() == old(self).spec_entity(),
    {
        self.paint_dirty(data);
        self.dirty_rects.clear();
    }
}

/// `l` is an offset inside a `size x size` square.
pub open spec fn in_square(size: int, l: GridPos) -> bool {
    0 <= l.x < size && 0 <= l.y < size
}

/// The offsets of a `size x size` square that come before `cur` in
/// row-major order.
pub open spec fn square_before(size: int, cur: GridPos) -> Set<GridPos> {
    Set::new(|l: GridPos| in_square(size, l) && (l.y < cur.y || (l.y == cur.y && l.x < cur.x)))
}

impl Ground {
    /// `g` is `g0` with the tile at `corner + l` set to `mat` (emptied for
    /// `None`) for every offset `l` in `done`, and the dirty areas of those
    /// tiles added.
    pub open spec fn painted(g0: Ground, g: Ground, corner: GridPos, size: int, mat: Option<GroundMaterialRef>, done: Set<GridPos>, n: int) -> bool {
        &&& g0.wf()
        &&& g.wf()
        &&& g.palette() == g0.palette()
        &&& g.spec_entity() == g0.spec_entity()
        &&& g.tiles().same_shape(g0.tiles())
        &&& forall|l: GridPos|
            #[trigger] done.contains(l) && g0.tiles().has_cell(sum(corner, l)) ==> g.tiles().cells()[g0.tiles().index_of(
                sum(corner, l),
            )] == mat
        &&& forall|i: int|
            0 <= i < g.tiles().cells().len() && (forall|l: GridPos|
                #[trigger] done.contains(l) && g0.tiles().has_cell(sum(corner, l))
                    ==> g0.tiles().index_of(sum(corner, l)) != i) ==> #[trigger] g.tiles().cells()[i]
                == g0.tiles().cells()[i]
        &&& g.dirty().len() == g0.dirty().len() + n
        &&& g.dirty().subrange(0, g0.dirty().len() as int) == g0.dirty()
        &&& forall|k: int|
            0 <= k < n ==> #[trigger] g.dirty()[g0.dirty().len() + k] == Ground::pos_rect(
                (corner.x + k % size) as i32,
                (corner.y + k / size) as i32,
            )
    }

    /// Paints the `size x size` square of tiles whose lower-left corner is
    /// `corner` with material `mat`, or clears it for `None`, row by row, and
    /// marks each of its tiles for redrawing.
    pub fn paint_square(&mut self, corner: GridPos, size: u32, mat: Option<GroundMaterialRef>)
        requires
            old(self).wf(),
            mat is Some ==> mat->0.id() < old(self).palette().len(),
            size < i32::MAX,
            corner.x + size < i32::MAX,
            corner.y + size < i32::MAX,
        ensures
            Self::painted(*old(self), *final(self), corner, size as int, mat, square_before(size as int, GridPos { x: 0, y: size as i32 }), size * size),
    {
        let ghost g0 = *self;
        let ghost sz = size as int;
        proof {
            assert(square_before(sz, GridPos { x: 0, y: 0 }) =~= Set::<GridPos>::empty());
            assert(self.dirty().subrange(0, g0.dirty().len() as int) =~= g0.dirty());
        }
        let mut y: u32 = 0;
        while y < size
            invariant
                sz == size,
                size < i32::MAX,
                corner.x + size < i32::MAX,
                corner.y + size < i32::MAX,
                mat is Some ==> mat->0.id() < g0.palette().len(),
                y <= size,
                Self::painted(g0, *self, corner, sz, mat, square_before(sz, GridPos { x: 0, y: y as i32 }), y * sz),
            decreases size - y,
        {
            let mut x: u32 = 0;
            while x < size
                invariant
                    sz == size,
                    size < i32::MAX,
                    corner.x + size < i32::MAX,
                    corner.y + size < i32::MAX,
                    mat is Some ==> mat->0.id() < g0.palette().len(),
                    y < size,
                    x <= size,
                    Self::painted(g0, *self, corner, sz, mat, square_before(sz, GridPos { x: x as i32, y: y as i32 }), y * sz + x),
                decreases size - x,
            {
                let local = GridPos { x: x as i32, y: y as i32 };
                let pos = GridPos { x: corner.x + x as i32, y: corner.y + y as i32 };
                assert(pos == sum(corner, local));
                let ghost g1 = *self;
                let ghost done = square_before(sz, local);
                let ghost n = y * sz + x;
                if let Some(mat_ref) = mat {
                    self.set_tile(pos, mat_ref, true);
                } else {
                    self.clear_tile(pos, true);
                }
                proof {
                    let t0 = g0.tiles();
                    let d2 = done.insert(local);
                    assert(square_before(sz, GridPos { x: (x + 1) as i32, y: y as i32 }) =~= d2);
                    assert forall|l: GridPos|
                        #[trigger] d2.contains(l) && t0.has_cell(sum(corner, l)) implies self.tiles().cells()[t0.index_of(
                            sum(corner, l),
                        )] == mat by {
                        if l != local {
                            assert(done.contains(l));
                        }
                    }
                    assert forall|i: int|
                        0 <= i < self.tiles().cells().len() && (forall|l: GridPos|
                            #[trigger] d2.contains(l) && t0.has_cell(sum(corner, l)) ==> t0.index_of(sum(corner, l)) != i)
                            implies #[trigger] self.tiles().cells()[i] == t0.cells()[i] by {
                        assert(d2.contains(local));
                        assert forall|l: GridPos|
                            #[trigger] done.contains(l) && t0.has_cell(sum(corner, l)) implies t0.index_of(sum(corner, l)) != i by {
                            assert(d2.contains(l));
                        }
                        assert(g1.tiles().cells()[i] == t0.cells()[i]);
                    }
                    assert(self.dirty().subrange(0, g0.dirty().len() as int) =~= g0.dirty()) by {
                        assert(g1.dirty().subrange(0, g0.dirty().len() as int) =~= g0.dirty());
                    }
                    assert(n % sz == x && n / sz == y) by (nonlinear_arith)
                        requires
                            n == y * sz + x,
                            0 <= x < sz,
                            0 <= y,
                    ;
                    assert forall|k: int| 0 <= k < n + 1 implies #[trigger] self.dirty()[g0.dirty().len() + k] == Ground::pos_rect(
                        (corner.x + k % sz) as i32,
                        (corner.y + k / sz) as i32,
                    ) by {
                        if k < n {
                            assert(g1.dirty()[g0.dirty().len() + k] == Ground::pos_rect(
                                (corner.x + k % sz) as i32,
                                (corner.y + k / sz) as i32,
                            ));
                        }
                    }
                }
                x = x + 1;
            }
            proof {
                assert(square_before(sz, GridPos { x: size as i32, y: y as i32 }) =~= square_before(
                    sz,
                    GridPos { x: 0, y: (y + 1) as i32 },
                ));
                assert(y * sz + sz == (y + 1) * sz) by (nonlinear_arith);
            }
            y = y + 1;
        }
    }
}

/// `data` with the 4 bytes of pixel `p` set to `c`, where that pixel lies in `data`.
pub open spec fn put_pixel(data: Seq<u8>, p: int, c: Seq<u8>) -> Seq<u8> {
    if 0 <= p && 4 * p + 4 <= data.len() {
        data.update(4 * p, c[0]).update(4 * p + 1, c[1]).update(4 * p + 2, c[2]).update(4 * p + 3, c[3])
    } else {
        data
    }
}

/// The navigation grid always agrees with the tiles: each position holds the
/// navigation cost of the material at that position, or nothing where there
/// is no material.
pub proof fn law_nav_matches_tiles(g: Ground, pos: GridPos)
    requires
        g.wf(),
    ensures
        g.nav().cell(pos) == cost_of(g.palette(), g.tiles().cell(pos)),
{
    if g.tiles().has_cell(pos) {
        assert(g.nav().cells()[g.tiles().index_of(pos)] == cost_of(
            g.palette(),
            g.tiles().cells()[g.tiles().index_of(pos)],
        ));
    }
}

/// Every tile of the navigation grid costs at least one to enter, so the
/// path search over it finds cheapest paths.
pub proof fn law_nav_costs_positive(g: Ground)
    requires
        g.wf(),
    ensures
        costs_positive(g.nav()@),
{
    assert forall|q: GridPos| #[trigger] g.nav()@.contains_key(q) implies g.nav()@[q] >= 1 by {
        law_nav_matches_tiles(g, q);
        let t = g.tiles().cell(q);
        if g.tiles().has_cell(q) {
            let i = g.tiles().index_of(q);
            assert(g.tiles().cells()[i] is Some ==> g.tiles().cells()[i]->0.id() < g.palette().len());
        }
    }
}

/// Once material `tile` is set at an in-bounds `pos`, `pos` holds `tile` and
/// its navigation cost, and other in-bounds positions keep their material.
pub proof fn law_get_after_set_tile(g: Ground, h: Ground, pos: GridPos, tile: GroundMaterialRef, other: GridPos)
    requires
        g.wf(),
        h.wf(),
        h.palette() == g.palette(),
        h.tiles().same_shape(g.tiles()),
        h.tiles().cells() == g.tiles().after_insert(pos, tile),
        g.tiles().in_bounds(pos),
    ensures
        h.tiles().cell(pos) == Some(tile),
        h.nav().cell(pos) == Some(g.palette()[tile.id() as int].nav_cost),
        g.tiles().in_bounds(other) && other != pos ==> h.tiles().cell(other) == g.tiles().cell(other),
{
    law_get_after_insert(g.tiles(), h.tiles(), pos, tile, other);
    law_nav_matches_tiles(h, pos);
}

/// Once an in-bounds `pos` is cleared it holds no material and no navigation
/// cost, and other in-bounds positions keep their material.
pub proof fn law_get_after_clear_tile(g: Ground, h: Ground, pos: GridPos, other: GridPos)
    requires
        g.wf(),
        h.wf(),
        h.palette() == g.palette(),
        h.tiles().same_shape(g.tiles()),
        h.tiles().cells() == g.tiles().after_remove(pos),
        g.tiles().in_bounds(pos),
    ensures
        h.tiles().cell(pos) is None,
        h.nav().cell(pos) is None,
        g.tiles().in_bounds(other) && other != pos ==> h.tiles().cell(other) == g.tiles().cell(other),
{
    law_get_after_remove(g.tiles(), h.tiles(), pos, other);
    law_nav_matches_tiles(h, pos);
}

/// Drawing a single one-tile area writes the colour of that tile at its
/// pixel, provided the pixel lies in the image.
pub proof fn law_paint_one_tile(g: Ground, data: Seq<u8>, x: i32, y: i32)
    requires
        g.wf(),
        x < i32::MAX,
        y < i32::MAX,
        0 <= y * g.tiles().spec_width() + x,
        4 * (y * g.tiles().spec_width() + x) + 4 <= data.len(),
    ensures
        ({
            let p = y * g.tiles().spec_width() + x;
            let out = g.paint_rects(data, seq![Ground::pos_rect(x, y)]);
            out.subrange(4 * p, 4 * p + 4) == g.tile_color(x as int, y as int)
        }),
{
    let r = Ground::pos_rect(x, y);
    let p = y * g.tiles().spec_width() + x;
    let c = g.tile_color(x as int, y as int);
    let once = put_pixel(data, p, c);
    assert(g.paint_row(data, y as int, x as int, x + 1) == g.paint_row(once, y as int, x + 1, x + 1));
    assert(g.paint_rows(data, r, y as int) == g.paint_rows(once, r, y + 1));
    assert(g.paint_rows(once, r, y + 1) == once);
    assert(seq![r].drop_first() =~= Seq::<Rect>::empty());
    assert(g.paint_rects(once, Seq::<Rect>::empty()) == once);
    assert(seq![r][0] == r);
    assert(g.paint_rects(data, seq![r]) == g.paint_rects(g.paint_rows(data, r, y as int), seq![r].drop_first()));
    assert(g.paint_rects(data, seq![r]) == once);
    assert(c.len() == 4) by {
        match g.tiles().cell(GridPos { x: x as i32, y: y as i32 }) {
            Some(t) => {},
            None => {},
        }
    }
    assert(once.subrange(4 * p, 4 * p + 4) =~= c);
}

/// The four bytes of pixel `q` of `data` are the colour `c`.
spec fn pixel_is(data: Seq<u8>, q: int, c: Seq<u8>) -> bool {
    forall|k: int| 0 <= k < 4 ==> #[trigger] data[4 * q + k] == c[k]
}

proof fn lemma_pixel_unique(w: int, x1: int, y1: int, x2: int, y2: int)
    requires
        0 <= x1 < w,
        0 <= x2 < w,
        y1 * w + x1 == y2 * w + x2,
    ensures
        x1 == x2,
        y1 == y2,
{
    if y1 < y2 {
        assert(y1 * w + x1 < y2 * w + x2) by (nonlinear_arith)
            requires
                0 <= x1 < w,
                0 <= x2,
                y1 < y2,
        ;
    } else if y2 < y1 {
        assert(y2 * w + x2 < y1 * w + x1) by (nonlinear_arith)
            requires
                0 <= x2 < w,
                0 <= x1,
                y2 < y1,
        ;
    }
}

/// Drawing tile `(x, y)` keeps a pixel `q` that already shows the colour of
/// its own tile `(xt, yt)`, and draws it when the two tiles are one.
proof fn lemma_put_tile(g: Ground, data: Seq<u8>, x: int, y: int, xt: int, yt: int)
    requires
        0 <= x < g.tiles().spec_width(),
        0 <= xt < g.tiles().spec_width(),
        0 <= yt * g.tiles().spec_width() + xt,
        4 * (yt * g.tiles().spec_width() + xt) + 4 <= data.len(),
    ensures
        ({
            let w = g.tiles().spec_width() as int;
            let out = put_pixel(data, y * w + x, g.tile_color(x, y));
            &&& out.len() == data.len()
            &&& pixel_is(data, yt * w + xt, g.tile_color(xt, yt)) ==> pixel_is(out, yt * w + xt, g.tile_color(xt, yt))
            &&& (x == xt && y == yt) ==> pixel_is(out, yt * w + xt, g.tile_color(xt, yt))
        }),
{
    let w = g.tiles().spec_width() as int;
    let p = y * w + x;
    let q = yt * w + xt;
    let c = g.tile_color(x, y);
    let out = put_pixel(data, p, c);
    if p == q {
        lemma_pixel_unique(w, x, y, xt, yt);
        assert forall|k: int| 0 <= k < 4 implies #[trigger] out[4 * q + k] == g.tile_color(xt, yt)[k] by {
        }
    } else {
        if pixel_is(data, q, g.tile_color(xt, yt)) {
            assert forall|k: int| 0 <= k < 4 implies #[trigger] out[4 * q + k] == g.tile_color(xt, yt)[k] by {
                assert(data[4 * q + k] == g.tile_color(xt, yt)[k]);
            }
        }
    }
}

proof fn lemma_row_keep(g: Ground, data: Seq<u8>, y: int, x: int, right: int, xt: int, yt: int)
    requires
        0 <= x,
        right <= g.tiles().spec_width(),
        0 <= xt < g.tiles().spec_width(),
        0 <= yt * g.tiles().spec_width() + xt,
        4 * (yt * g.tiles().spec_width() + xt) + 4 <= data.len(),
    ensures
        g.paint_row(data, y, x, right).len() == data.len(),
        pixel_is(data, yt * g.tiles().spec_width() + xt, g.tile_color(xt, yt)) ==> pixel_is(
            g.paint_row(data, y, x, right),
            yt * g.tiles().spec_width() + xt,
            g.tile_color(xt, yt),
        ),
    decreases right - x,
{
    if x < right {
        let w = g.tiles().spec_width() as int;
        lemma_put_tile(g, data, x, y, xt, yt);
        lemma_row_keep(g, put_pixel(data, y * w + x, g.tile_color(x, y)), y, x + 1, right, xt, yt);
    }
}

proof fn lemma_row_hit(g: Ground, data: Seq<u8>, y: int, x: int, right: int, xt: int)
    requires
        0 <= x <= xt < right,
        right <= g.tiles().spec_width(),
        0 <= y * g.tiles().spec_width() + xt,
        4 * (y * g.tiles().spec_width() + xt) + 4 <= data.len(),
    ensures
        pixel_is(g.paint_row(data, y, x, right), y * g.tiles().spec_width() + xt, g.tile_color(xt, y)),
    decreases right - x,
{
    let w = g.tiles().spec_width() as int;
    lemma_put_tile(g, data, x, y, xt, y);
    let next = put_pixel(data, y * w + x, g.tile_color(x, y));
    if x == xt {
        lemma_row_keep(g, next, y, x + 1, right, xt, y);
    } else {
        lemma_row_hit(g, next, y, x + 1, right, xt);
    }
}

proof fn lemma_rows_keep(g: Ground, data: Seq<u8>, r: Rect, y: int, xt: int, yt: int)
    requires
        0 <= r.left,
        r.right <= g.tiles().spec_width(),
        0 <= xt < g.tiles().spec_width(),
        0 <= yt * g.tiles().spec_width() + xt,
        4 * (yt * g.tiles().spec_width() + xt) + 4 <= data.len(),
    ensures
        g.paint_rows(data, r, y).len() == data.len(),
        pixel_is(data, yt * g.tiles().spec_width() + xt, g.tile_color(xt, yt)) ==> pixel_is(
            g.paint_rows(data, r, y),
            yt * g.tiles().spec_width() + xt,
            g.tile_color(xt, yt),
        ),
    decreases r.top - y,
{
    if y < r.top {
        lemma_row_keep(g, data, y, r.left as int, r.right as int, xt, yt);
        lemma_rows_keep(g, g.paint_row(data, y, r.left as int, r.right as int), r, y + 1, xt, yt);
    }
}

proof fn lemma_rows_hit(g: Ground, data: Seq<u8>, r: Rect, y: int, xt: int, yt: int)
    requires
        0 <= r.left <= xt < r.right,
        r.right <= g.tiles().spec_width(),
        y <= yt < r.top,
        0 <= yt * g.tiles().spec_width() + xt,
        4 * (yt * g.tiles().spec_width() + xt) + 4 <= data.len(),
    ensures
        pixel_is(g.paint_rows(data, r, y), yt * g.tiles().spec_width() + xt, g.tile_color(xt, yt)),
    decreases r.top - y,
{
    let next = g.paint_row(data, y, r.left as int, r.right as int);
    lemma_row_keep(g, data, y, r.left as int, r.right as int, xt, yt);
    if y == yt {
        lemma_row_hit(g, data, y, r.left as int, r.right as int, xt);
        lemma_rows_keep(g, next, r, y + 1, xt, yt);
    } else {
        lemma_rows_hit(g, next, r, y + 1, xt, yt);
    }
}

proof fn lemma_rects_keep(g: Ground, data: Seq<u8>, rects: Seq<Rect>, xt: int, yt: int)
    requires
        forall|i: int| 0 <= i < rects.len() ==> 0 <= #[trigger] rects[i].left && rects[i].right <= g.tiles().spec_width(),
        0 <= xt < g.tiles().spec_width(),
        0 <= yt * g.tiles().spec_width() + xt,
        4 * (yt * g.tiles().spec_width() + xt) + 4 <= data.len(),
    ensures
        g.paint_rects(data, rects).len() == data.len(),
        pixel_is(data, yt * g.tiles().spec_width() + xt, g.tile_color(xt, yt)) ==> pixel_is(
            g.paint_rects(data, rects),
            yt * g.tiles().spec_width() + xt,
            g.tile_color(xt, yt),
        ),
    decreases rects.len(),
{
    if rects.len() > 0 {
        let r = rects[0];
        lemma_rows_keep(g, data, r, r.bottom as int, xt, yt);
        let rest = rects.drop_first();
        assert forall|i: int| 0 <= i < rest.len() implies 0 <= #[trigger] rest[i].left && rest[i].right
            <= g.tiles().spec_width() by {
            assert(rest[i] == rects[i + 1]);
        }
        lemma_rects_keep(g, g.paint_rows(data, r, r.bottom as int), rest, xt, yt);
    }
}

proof fn lemma_rects_hit(g: Ground, data: Seq<u8>, rects: Seq<Rect>, j: int, xt: int, yt: int)
    requires
        forall|i: int| 0 <= i < rects.len() ==> 0 <= #[trigger] rects[i].left && rects[i].right <= g.tiles().spec_width(),
        0 <= j < rects.len(),
        rects[j].left <= xt < rects[j].right,
        rects[j].bottom <= yt < rects[j].top,
        0 <= yt * g.tiles().spec_width() + xt,
        4 * (yt * g.tiles().spec_width() + xt) + 4 <= data.len(),
    ensures
        pixel_is(g.paint_rects(data, rects), yt * g.tiles().spec_width() + xt, g.tile_color(xt, yt)),
    decreases rects.len(),
{
    let r = rects[0];
    assert(0 <= rects[0].left && rects[0].right <= g.tiles().spec_width());
    assert(0 <= rects[j].left && rects[j].right <= g.tiles().spec_width());
    let next = g.paint_rows(data, r, r.bottom as int);
    lemma_rows_keep(g, data, r, r.bottom as int, xt, yt);
    let rest = rects.drop_first();
    assert forall|i: int| 0 <= i < rest.len() implies 0 <= #[trigger] rest[i].left && rest[i].right
        <= g.tiles().spec_width() by {
        assert(rest[i] == rects[i + 1]);
    }
    if j == 0 {
        lemma_rows_hit(g, data, r, r.bottom as int, xt, yt);
        lemma_rects_keep(g, next, rest, xt, yt);
    } else {
        assert(rest[j - 1] == rects[j]);
        lemma_rects_hit(g, next, rest, j - 1, xt, yt);
    }
}

/// Redrawing the out-of-date areas draws every tile of every such area: once
/// the areas lie across the ground's width, each tile `(x, y)` inside one of
/// them whose pixel `y * width + x` lies in the image shows the tile's colour
/// there (its material's colour, or opaque black where it has none), whatever
/// the other areas are and in whatever order they come.
pub proof fn law_dirty_rects_drawn(g: Ground, data: Seq<u8>, j: int, x: int, y: int, k: int)
    requires
        g.wf(),
        forall|i: int|
            0 <= i < g.dirty().len() ==> 0 <= #[trigger] g.dirty()[i].left && g.dirty()[i].right
                <= g.tiles().spec_width(),
        0 <= j < g.dirty().len(),
        g.dirty()[j].left <= x < g.dirty()[j].right,
        g.dirty()[j].bottom <= y < g.dirty()[j].top,
        0 <= y * g.tiles().spec_width() + x,
        4 * (y * g.tiles().spec_width() + x) + 4 <= data.len(),
        0 <= k < 4,
    ensures
        g.paint_rects(data, g.dirty())[4 * (y * g.tiles().spec_width() + x) + k] == match g.tiles().cell(
            GridPos { x: x as i32, y: y as i32 },
        ) {
            Some(t) => g.palette()[t.id() as int].color@[k],
            None => black()[k],
        },
{
    lemma_rects_hit(g, data, g.dirty(), j, x, y);
    assert(g.paint_rects(data, g.dirty())[4 * (y * g.tiles().spec_width() + x) + k] == g.tile_color(x, y)[k]);
}

} // verus!
