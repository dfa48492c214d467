use vstd::prelude::*;

use crate::grid::grown_to;
use crate::sparse_grid::{GridPos, SparseGrid};

verus! {

/// A ground material: its colour as 8-bit RGBA and the cost of walking on it.
#[derive(Debug, Clone)]
pub struct GroundMaterial {
    pub color: [u8; 4],
    pub nav_cost: u8,
}

/// An index into the ground's palette of materials.
#[derive(Debug)]
pub struct GroundMaterialRef(u16);

impl Clone for GroundMaterialRef {
    fn clone(&self) -> (r: Self)
        ensures
            r == *self,
    {
        GroundMaterialRef(self.0)
    }
}

impl GroundMaterialRef {
    /// The palette index.
    pub closed spec fn id(self) -> nat {
        self.0 as nat
    }
}

impl Default for GroundMaterialRef {
    fn default() -> (r: Self)
        ensures
            r.id() == 0,
    {
        GroundMaterialRef(0)
    }
}

/// The materials that the ground painter offers.
#[derive(PartialEq, Eq, Structural)]
pub enum GroundMaterials {
    Nothing,
    Grass,
    Road,
}

impl Default for GroundMaterials {
    fn default() -> (r: Self)
        ensures
            r == GroundMaterials::Nothing,
    {
        GroundMaterials::Nothing
    }
}

impl GroundMaterials {
    pub fn to_material_ref(&self) -> (r: Option<GroundMaterialRef>)
        ensures
            match *self {
                GroundMaterials::Nothing => r is None,
                GroundMaterials::Grass => r is Some && r->0.id() == 0,
                GroundMaterials::Road => r is Some && r->0.id() == 1,
            },
    {
        match &self {
            GroundMaterials::Nothing => None,
            GroundMaterials::Grass => Some(Ground::grass()),
            GroundMaterials::Road => Some(Ground::road()),
        }
    }
}

/// The navigation cost of tile `t` under `palette`.
pub open spec fn cost_of(palette: Seq<GroundMaterial>, t: Option<GroundMaterialRef>) -> Option<u8> {
    match t {
        Some(r) => Some(palette[r.id() as int].nav_cost),
        None => None,
    }
}

/// The ground: a square grid of material tiles, the matching grid of
/// navigation costs, and whether its picture is out of date.
#[derive(Debug, Clone)]
pub struct Ground {
    pub entity: Option<u64>,
    palette: Vec<GroundMaterial>,
    tiles: SparseGrid<GroundMaterialRef>,
    nav_grid: SparseGrid<u8>,
    dirty: bool,
}

impl Ground {
    pub closed spec fn spec_entity(self) -> Option<u64> {
        self.entity
    }

    pub closed spec fn palette(self) -> Seq<GroundMaterial> {
        self.palette@
    }

    pub closed spec fn tiles(self) -> SparseGrid<GroundMaterialRef> {
        self.tiles
    }

    pub closed spec fn nav(self) -> SparseGrid<u8> {
        self.nav_grid
    }

    pub closed spec fn is_dirty(self) -> bool {
        self.dirty
    }

    /// The invariant: both grids have one width and one length, every tile
    /// names a palette entry, and each navigation cell holds the cost of the
    /// tile stored at the same place.
    pub open spec fn wf(self) -> bool {
        &&& self.tiles().width == self.nav().width
        &&& self.tiles().values@.len() == self.nav().values@.len()
        &&& self.palette().len() <= 0xffff
        &&& forall|i: int|
            0 <= i < self.tiles().values@.len() && (#[trigger] self.tiles().values@[i]) is Some
                ==> self.tiles().values@[i]->0.id() < self.palette().len()
        &&& forall|i: int|
            0 <= i < self.tiles().values@.len() ==> #[trigger] self.nav().values@[i] == cost_of(
                self.palette(),
                self.tiles().values@[i],
            )
    }

    pub fn grass() -> (r: GroundMaterialRef)
        ensures
            r.id() == 0,
    {
        GroundMaterialRef(0)
    }

    pub fn road() -> (r: GroundMaterialRef)
        ensures
            r.id() == 1,
    {
        GroundMaterialRef(1)
    }

    /// A `width x width` ground covered with grass, to be drawn.
    pub fn new(width: u32) -> (r: Self)
        requires
            width as nat * width as nat <= usize::MAX,
        ensures
            r.wf(),
            r.spec_entity() is None,
            r.is_dirty(),
            r.tiles().width == width,
            r.tiles().values@.len() == width as nat * width as nat,
            r.palette() == seq![
                GroundMaterial { color: [76u8, 127u8, 76u8, 255u8], nav_cost: 32u8 },
                GroundMaterial { color: [204u8, 178u8, 127u8, 255u8], nav_cost: 1u8 },
            ],
            forall|i: int|
                0 <= i < r.tiles().values@.len() ==> (#[trigger] r.tiles().values@[i]) is Some
                    && r.tiles().values@[i]->0.id() == 0,
    {
        let grass = GroundMaterial { color: [76, 127, 76, 255], nav_cost: 32 };
        let grass_nav_cost = grass.nav_cost;
        let road = GroundMaterial { color: [204, 178, 127, 255], nav_cost: 1 };
        let mut palette = Vec::new();
        palette.push(grass);
        palette.push(road);
        let tiles = SparseGrid::new(width, Some(Self::grass()));
        let nav_grid = SparseGrid::new(width, Some(grass_nav_cost));
        let r = Self { entity: None, palette, tiles, nav_grid, dirty: true };
        assert(r.palette() =~= seq![
            GroundMaterial { color: [76u8, 127u8, 76u8, 255u8], nav_cost: 32u8 },
            GroundMaterial { color: [204u8, 178u8, 127u8, 255u8], nav_cost: 1u8 },
        ]);
        r
    }

    #[inline]
    pub fn width(&self) -> (r: u32)
        ensures
            r == self.tiles().width,
    {
        self.tiles.width
    }

    /// Appends `tile` to the palette and returns its index.
    pub fn register_ground_material(&mut self, tile: GroundMaterial) -> (r: GroundMaterialRef)
        requires
            old(self).wf(),
            old(self).palette().len() < 0xffff,
        ensures
            final(self).wf(),
            r.id() == old(self).palette().len(),
            final(self).palette() == old(self).palette().push(tile),
            final(self).tiles() == old(self).tiles(),
            final(self).nav() == old(self).nav(),
            final(self).is_dirty() == old(self).is_dirty(),
            final(self).spec_entity() == old(self).spec_entity(),
    {
        let id = self.palette.len();
        self.palette.push(tile);
        proof {
            assert forall|i: int|
                0 <= i < self.tiles().values@.len() implies #[trigger] self.nav().values@[i]
                == cost_of(self.palette(), self.tiles().values@[i]) by {
                assert(old(self).nav().values@[i] == cost_of(old(self).palette(), old(self).tiles().values@[i]));
                if self.tiles().values@[i] is Some {
                    assert(self.palette()[self.tiles().values@[i]->0.id() as int]
                        == old(self).palette()[self.tiles().values@[i]->0.id() as int]);
                }
            }
        }
        GroundMaterialRef(id as u16)
    }

    pub fn nav_grid(&self) -> (r: &SparseGrid<u8>)
        ensures
            *r == self.nav(),
    {
        &self.nav_grid
    }

    pub fn get_tile_ref(&self, pos: GridPos) -> (r: Option<GroundMaterialRef>)
        ensures
            r == self.tiles().cell(pos),
    {
        match self.tiles.get(pos) {
            Some(id) => Some(id.clone()),
            None => None,
        }
    }

    pub fn get_tile(&self, pos: GridPos) -> (r: Option<&GroundMaterial>)
        requires
            self.wf(),
        ensures
            r is Some <==> self.tiles().cell(pos) is Some,
            r is Some ==> *r->0 == self.palette()[self.tiles().cell(pos)->0.id() as int],
    {
        match self.tiles.get(pos) {
            Some(id) => Some(&self.palette[id.0 as usize]),
            None => None,
        }
    }

    /// Puts material `tile` at `pos`, with its navigation cost, growing the
    /// grids where `pos` lies past their end; the picture is then out of date.
    pub fn set_tile(&mut self, pos: GridPos, tile: GroundMaterialRef)
        requires
            old(self).wf(),
            tile.id() < old(self).palette().len(),
            old(self).tiles().raw(pos) < usize::MAX,
        ensures
            final(self).wf(),
            final(self).is_dirty(),
            final(self).palette() == old(self).palette(),
            final(self).spec_entity() == old(self).spec_entity(),
            final(self).tiles().width == old(self).tiles().width,
            final(self).tiles().values@ == grown_to(old(self).tiles().values@, old(self).tiles().raw(pos)).update(
                old(self).tiles().raw(pos) as int,
                Some(tile),
            ),
            final(self).nav().values@ == grown_to(old(self).nav().values@, old(self).tiles().raw(pos)).update(
                old(self).tiles().raw(pos) as int,
                Some(old(self).palette()[tile.id() as int].nav_cost),
            ),
    {
        self.tiles.insert(pos.clone(), tile.clone());
        let cost = self.palette[tile.0 as usize].nav_cost;
        self.nav_grid.insert(pos, cost);
        self.dirty = true;
        proof {
            let i0 = old(self).tiles().raw(pos) as int;
            assert forall|i: int|
                0 <= i < self.tiles().values@.len() implies #[trigger] self.nav().values@[i]
                == cost_of(self.palette(), self.tiles().values@[i]) by {
                if i != i0 && i < old(self).tiles().values@.len() {
                    assert(old(self).nav().values@[i] == cost_of(old(self).palette(), old(self).tiles().values@[i]));
                }
            }
            assert forall|i: int|
                0 <= i < self.tiles().values@.len() && (#[trigger] self.tiles().values@[i]) is Some
                    implies self.tiles().values@[i]->0.id() < self.palette().len() by {
                if i != i0 && i < old(self).tiles().values@.len() {
                    assert(old(self).tiles().values@[i] == self.tiles().values@[i]);
                }
            }
        }
    }

    /// Removes the material at `pos`, and its navigation cost; the picture is
    /// then out of date.
    pub fn clear_tile(&mut self, pos: GridPos)
        requires
            old(self).wf(),
        ensures
            final(self).wf(),
            final(self).is_dirty(),
            final(self).palette() == old(self).palette(),
            final(self).spec_entity() == old(self).spec_entity(),
            final(self).tiles().width == old(self).tiles().width,
            final(self).tiles().values@ == (if old(self).tiles().raw(pos) < old(self).tiles().values@.len() {
                old(self).tiles().values@.update(old(self).tiles().raw(pos) as int, None)
            } else {
                old(self).tiles().values@
            }),
            final(self).nav().values@ == (if old(self).tiles().raw(pos) < old(self).nav().values@.len() {
                old(self).nav().values@.update(old(self).tiles().raw(pos) as int, None)
            } else {
                old(self).nav().values@
            }),
    {
        self.tiles.remove(pos.clone());
        self.nav_grid.remove(pos);
        self.dirty = true;
        proof {
            assert forall|i: int|
                0 <= i < self.tiles().values@.len() implies #[trigger] self.nav().values@[i]
                == cost_of(self.palette(), self.tiles().values@[i]) by {
                if i != old(self).tiles().raw(pos) {
                    assert(old(self).nav().values@[i] == cost_of(old(self).palette(), old(self).tiles().values@[i]));
                }
            }
            assert forall|i: int|
                0 <= i < self.tiles().values@.len() && (#[trigger] self.tiles().values@[i]) is Some
                    implies self.tiles().values@[i]->0.id() < self.palette().len() by {
                assert(old(self).tiles().values@[i] == self.tiles().values@[i]);
            }
        }
    }
}

impl Ground {
    /// The picture of the ground is out of date.
    pub fn needs_redraw(&self) -> (r: bool)
        ensures
            r == self.is_dirty(),
    {
        self.dirty
    }

    /// The colour of tile `(x, y)`: its material's colour, or opaque black
    /// where it has none.
    pub open spec fn color_at(self, x: int, y: int) -> Seq<u8> {
        match self.tiles().cell(GridPos { x: x as u32, y: y as u32 }) {
            Some(t) => self.palette()[t.id() as int].color@,
            None => seq![0u8, 0u8, 0u8, 255u8],
        }
    }

    fn tile_color(&self, x: u32, y: u32) -> (r: [u8; 4])
        requires
            self.wf(),
        ensures
            r@ == self.color_at(x as int, y as int),
    {
        match self.tiles.get(GridPos::new(x, y)) {
            Some(t) => self.palette[t.0 as usize].color,
            None => [0, 0, 0, 255],
        }
    }

    /// Draws the ground into `data`, an RGBA8 picture `width` pixels square:
    /// pixel `(x, y)`, at byte `4 * (y * width + x)`, gets the colour of tile
    /// `(x, y)`. The picture is then up to date.
    pub fn write_pixels(&mut self, data: &mut Vec<u8>)
        requires
            old(self).wf(),
            old(data)@.len() == 4 * old(self).tiles().width * old(self).tiles().width,
        ensures
            final(self).wf(),
            !final(self).is_dirty(),
            final(self).palette() == old(self).palette(),
            final(self).tiles() == old(self).tiles(),
            final(self).nav() == old(self).nav(),
            final(self).spec_entity() == old(self).spec_entity(),
            final(data)@.len() == old(data)@.len(),
            forall|x: int, y: int, k: int|
                0 <= x < old(self).tiles().width && 0 <= y < old(self).tiles().width && 0 <= k < 4
                    ==> #[trigger] final(data)@[4 * (y * old(self).tiles().width + x) + k]
                    == old(self).color_at(x, y)[k],
    {
        let w = self.tiles.width;
        let ghost wn = w as int;
        let mut y: u32 = 0;
        while y < w
            invariant
                self.wf(),
                w == self.tiles().width,
                wn == w,
                y <= w,
                data@.len() == 4 * wn * wn,
                forall|xx: int, yy: int, k: int|
                    0 <= xx < wn && 0 <= yy < y && 0 <= k < 4 ==> #[trigger] data@[4 * (yy * wn + xx) + k]
                        == self.color_at(xx, yy)[k],
            decreases w - y,
        {
            let mut x: u32 = 0;
            while x < w
                invariant
                    self.wf(),
                    w == self.tiles().width,
                    wn == w,
                    y < w,
                    x <= w,
                    data@.len() == 4 * wn * wn,
                    forall|xx: int, yy: int, k: int|
                        0 <= xx < wn && 0 <= yy < y && 0 <= k < 4 ==> #[trigger] data@[4 * (yy * wn + xx)
                            + k] == self.color_at(xx, yy)[k],
                    forall|xx: int, k: int|
                        0 <= xx < x && 0 <= k < 4 ==> #[trigger] data@[4 * (y * wn + xx) + k]
                            == self.color_at(xx, y as int)[k],
                decreases w - x,
            {
                let pixel = self.tile_color(x, y);
                assert(4 * (y * wn + x) + 4 <= 4 * wn * wn) by (nonlinear_arith)
                    requires
                        0 <= x < wn,
                        0 <= y < wn,
                ;
                let len: usize = data.len();
                assert(4 * (y * wn + x) + 4 <= len);
                assert(y * wn <= y * wn + x) by (nonlinear_arith)
                    requires
                        0 <= y,
                        0 <= x,
                        0 <= wn,
                ;
                let idx: usize = 4 * (y as usize * w as usize + x as usize);
                let ghost before = data@;
                let mut k: usize = 0;
                while k < 4
                    invariant
                        k <= 4,
                        idx == 4 * (y * wn + x),
                        idx + 4 <= data@.len(),
                        data@.len() == before.len(),
                        pixel@ == self.color_at(x as int, y as int),
                        forall|i: int| 0 <= i < data@.len() && !(idx <= i < idx + k) ==> data@[i] == before[i],
                        forall|j: int| 0 <= j < k ==> data@[idx + j] == pixel@[j],
                    decreases 4 - k,
                {
                    data.set(idx + k, pixel[k]);
                    k = k + 1;
                }
                proof {
                    assert forall|xx: int, yy: int, kk: int|
                        0 <= xx < wn && 0 <= yy < y && 0 <= kk < 4 implies #[trigger] data@[4 * (yy * wn
                        + xx) + kk] == self.color_at(xx, yy)[kk] by {
                        assert(4 * (yy * wn + xx) + kk < 4 * (y * wn + x)) by (nonlinear_arith)
                            requires
                                0 <= xx < wn,
                                0 <= yy < y,
                                0 <= kk < 4,
                                0 <= x,
                        ;
                        assert(data@[4 * (yy * wn + xx) + kk] == before[4 * (yy * wn + xx) + kk]);
                    }
                    assert forall|xx: int, kk: int|
                        0 <= xx < x + 1 && 0 <= kk < 4 implies #[trigger] data@[4 * (y * wn + xx) + kk]
                        == self.color_at(xx, y as int)[kk] by {
                        if xx < x {
                            assert(4 * (y * wn + xx) + kk < 4 * (y * wn + x));
                            assert(data@[4 * (y * wn + xx) + kk] == before[4 * (y * wn + xx) + kk]);
                        } else {
                            assert(data@[idx + kk] == pixel@[kk]);
                        }
                    }
                }
                x = x + 1;
            }
            y = y + 1;
        }
        self.dirty = false;
    }
}

/// The navigation grid always agrees with the tiles: each position holds the
/// navigation cost of the material at that position, or nothing.
pub proof fn law_nav_matches_tiles(g: Ground, pos: GridPos)
    requires
        g.wf(),
    ensures
        g.nav().cell(pos) == cost_of(g.palette(), g.tiles().cell(pos)),
{
    if g.tiles().raw(pos) < g.tiles().values@.len() {
        assert(g.nav().values@[g.tiles().raw(pos) as int] == cost_of(
            g.palette(),
            g.tiles().values@[g.tiles().raw(pos) as int],
        ));
    }
}

/// Once material `tile` is set at `pos`, `pos` holds `tile` and its
/// navigation cost.
pub proof fn law_get_after_set_tile(g: Ground, h: Ground, pos: GridPos, tile: GroundMaterialRef)
    requires
        h.wf(),
        h.palette() == g.palette(),
        h.tiles().width == g.tiles().width,
        h.tiles().values@ == grown_to(g.tiles().values@, g.tiles().raw(pos)).update(
            g.tiles().raw(pos) as int,
            Some(tile),
        ),
    ensures
        h.tiles().cell(pos) == Some(tile),
        h.nav().cell(pos) == Some(g.palette()[tile.id() as int].nav_cost),
{
    law_nav_matches_tiles(h, pos);
}

} // verus!
