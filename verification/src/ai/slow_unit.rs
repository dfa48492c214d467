use vstd::prelude::*;

use crate::ai::ground::{Ground, GroundMaterialRef, Rect};
use crate::ai::sparse_grid::{
    law_filled, law_get_after_insert, law_in_bounds_cells_distinct, next_pow2, sum, GridPos,
    SparseGrid,
};

verus! {

/// `a` comes before `b` in row-major order (rows bottom to top, each left to
/// right).
pub open spec fn before(a: GridPos, b: GridPos) -> bool {
    a.y < b.y || (a.y == b.y && a.x < b.x)
}

/// The tiles that a building took from the ground where it stands: where it
/// took them (the ground position of its local `(0, 0)`), and the tiles, by
/// local position.
#[derive(Clone, Debug)]
pub struct NavGridCarve {
    ground_pos: Option<GridPos>,
    ground: SparseGrid<GroundMaterialRef>,
}

impl NavGridCarve {
    pub closed spec fn pos(self) -> Option<GridPos> {
        self.ground_pos
    }

    pub closed spec fn saved(self) -> SparseGrid<GroundMaterialRef> {
        self.ground
    }

    /// The saved grid is well formed, and the area it covers on the ground
    /// has coordinates that fit in `i32`.
    pub open spec fn wf(self) -> bool {
        &&& self.saved().wf()
        &&& self.saved().spec_width() < i32::MAX
        &&& self.saved().spec_height() < i32::MAX
        &&& self.pos() is Some ==> {
            &&& self.pos()->0.x + self.saved().spec_width() <= i32::MAX
            &&& self.pos()->0.y + self.saved().spec_height() <= i32::MAX
        }
    }

    /// `l` is a local position inside the saved area.
    pub open spec fn is_local(self, l: GridPos) -> bool {
        self.saved().in_bounds(l)
    }

    /// Local position `l` holds a saved tile, which a restore writes back.
    pub open spec fn writes(self, l: GridPos) -> bool {
        self.is_local(l) && self.saved().cell(l) is Some
    }

    /// The local positions holding a saved tile that come before `cur`.
    pub open spec fn done_before(self, cur: GridPos) -> Set<GridPos> {
        Set::new(|l: GridPos| self.writes(l) && before(l, cur))
    }

    /// The state of `g` after the writes of the saved tiles at the local
    /// positions `done` were made, in row-major order, on `g0` at offset `p`:
    /// a cell that some such write reached holds the tile of the last write
    /// that reached it, and every other cell is unchanged.
    pub open spec fn restored(self, g0: Ground, g: Ground, p: GridPos, done: Set<GridPos>) -> bool {
        &&& g0.wf()
        &&& g.wf()
        &&& g.palette() == g0.palette()
        &&& g.tiles().same_shape(g0.tiles())
        &&& forall|i: int|
            0 <= i < g.tiles().cells().len() && (forall|l: GridPos|
                #[trigger] done.contains(l) && g0.tiles().has_cell(sum(p, l))
                    ==> g0.tiles().index_of(sum(p, l)) != i) ==> #[trigger] g.tiles().cells()[i]
                == g0.tiles().cells()[i]
        &&& forall|l: GridPos|
            #[trigger] done.contains(l) && g0.tiles().has_cell(sum(p, l)) && (forall|l2: GridPos|
                #[trigger] done.contains(l2) && before(l, l2) ==> !(g0.tiles().has_cell(sum(p, l2))
                    && g0.tiles().index_of(sum(p, l2)) == g0.tiles().index_of(sum(p, l))))
                ==> g.tiles().cells()[g0.tiles().index_of(sum(p, l))] == self.saved().cell(l)
    }


    /// Writing the saved tile of `cur` extends the restore by one write.
    proof fn lemma_restored_step(
        self,
        g0: Ground,
        g: Ground,
        g2: Ground,
        p: GridPos,
        done: Set<GridPos>,
        cur: GridPos,
    )
        requires
            self.restored(g0, g, p, done),
            !done.contains(cur),
            forall|l: GridPos| #[trigger] done.contains(l) ==> before(l, cur),
            g2.wf(),
            g2.palette() == g.palette(),
            g2.tiles().same_shape(g.tiles()),
            g2.tiles().cells() == g.tiles().after_insert(sum(p, cur), self.saved().cell(cur)->0),
            self.saved().cell(cur) is Some,
        ensures
            self.restored(g0, g2, p, done.insert(cur)),
    {
        let t0 = g0.tiles();
        let d2 = done.insert(cur);
        let j = t0.index_of(sum(p, cur));
        assert forall|i: int|
            0 <= i < g2.tiles().cells().len() && (forall|l: GridPos|
                #[trigger] d2.contains(l) && t0.has_cell(sum(p, l)) ==> t0.index_of(sum(p, l)) != i)
                implies #[trigger] g2.tiles().cells()[i] == t0.cells()[i] by {
            assert(d2.contains(cur));
            if t0.has_cell(sum(p, cur)) {
                assert(j != i);
            }
            assert forall|l: GridPos|
                #[trigger] done.contains(l) && t0.has_cell(sum(p, l)) implies t0.index_of(sum(p, l)) != i by {
                assert(d2.contains(l));
            }
            assert(g.tiles().cells()[i] == t0.cells()[i]);
        }
        assert forall|l: GridPos|
            #[trigger] d2.contains(l) && t0.has_cell(sum(p, l)) && (forall|l2: GridPos|
                #[trigger] d2.contains(l2) && before(l, l2) ==> !(t0.has_cell(sum(p, l2))
                    && t0.index_of(sum(p, l2)) == t0.index_of(sum(p, l))))
                implies g2.tiles().cells()[t0.index_of(sum(p, l))] == self.saved().cell(l) by {
            if l == cur {
            } else {
                assert(done.contains(l));
                assert(before(l, cur));
                assert(d2.contains(cur));
                assert(!(t0.has_cell(sum(p, cur)) && j == t0.index_of(sum(p, l))));
                assert forall|l2: GridPos|
                    #[trigger] done.contains(l2) && before(l, l2) implies !(t0.has_cell(sum(p, l2))
                        && t0.index_of(sum(p, l2)) == t0.index_of(sum(p, l))) by {
                    assert(d2.contains(l2));
                }
                assert(g.tiles().cells()[t0.index_of(sum(p, l))] == self.saved().cell(l));
            }
        }
    }

    /// Writes the saved tiles back to the ground, row by row, and widens
    /// `dirty_rect` to cover the saved area. Does nothing when nothing was
    /// saved.
    pub fn restore(&self, ground: &mut Ground, dirty_rect: &mut Rect)
        requires
            self.wf(),
            old(ground).wf(),
            forall|l: GridPos| #[trigger] self.writes(l) ==> self.saved().cell(l)->0.id() < old(ground).palette().len(),
        ensures
            self.pos() is None ==> *final(ground) == *old(ground) && *final(dirty_rect) == *old(dirty_rect),
            self.pos() is Some ==> {
                let p = self.pos()->0;
                &&& self.restored(*old(ground), *final(ground), p, self.done_before(GridPos { x: 0, y: self.saved().spec_height() as i32 }))
                &&& final(ground).spec_entity() == old(ground).spec_entity()
                &&& final(ground).dirty() == old(ground).dirty()
                &&& final(dirty_rect).left == if old(dirty_rect).left <= p.x { old(dirty_rect).left } else { p.x }
                &&& final(dirty_rect).bottom == if old(dirty_rect).bottom <= p.y { old(dirty_rect).bottom } else { p.y }
                &&& final(dirty_rect).right == if old(dirty_rect).right >= p.x + self.saved().spec_width() {
                    old(dirty_rect).right as int
                } else {
                    p.x + self.saved().spec_width()
                }
                &&& final(dirty_rect).top == if old(dirty_rect).top >= p.y + self.saved().spec_height() {
                    old(dirty_rect).top as int
                } else {
                    p.y + self.saved().spec_height()
                }
            },
    {
        if let Some(pos) = self.ground_pos {
            let w = self.ground.width();
            let h = self.ground.height();
            let ghost g0 = *ground;
            proof {
                assert(self.done_before(GridPos { x: 0, y: 0 }) =~= Set::<GridPos>::empty());
            }
            let mut y: u32 = 0;
            while y < h
                invariant
                    self.wf(),
                    self.pos() == Some(pos),
                    w == self.saved().spec_width(),
                    h == self.saved().spec_height(),
                    y <= h,
                    forall|l: GridPos| #[trigger] self.writes(l) ==> self.saved().cell(l)->0.id() < g0.palette().len(),
                    self.restored(g0, *ground, pos, self.done_before(GridPos { x: 0, y: y as i32 })),
                    ground.spec_entity() == g0.spec_entity(),
                    ground.dirty() == g0.dirty(),
                decreases h - y,
            {
                let mut x: u32 = 0;
                while x < w
                    invariant
                        self.wf(),
                        self.pos() == Some(pos),
                        w == self.saved().spec_width(),
                        h == self.saved().spec_height(),
                        y < h,
                        x <= w,
                        forall|l: GridPos| #[trigger] self.writes(l) ==> self.saved().cell(l)->0.id() < g0.palette().len(),
                        self.restored(g0, *ground, pos, self.done_before(GridPos { x: x as i32, y: y as i32 })),
                        ground.spec_entity() == g0.spec_entity(),
                        ground.dirty() == g0.dirty(),
                    decreases w - x,
                {
                    let local = GridPos { x: x as i32, y: y as i32 };
                    let next = GridPos { x: (x + 1) as i32, y: y as i32 };
                    let ghost g1 = *ground;
                    if let Some(tile) = self.ground.get(local) {
                        assert(self.writes(local));
                        let target = pos + local;
                        assert(target == sum(pos, local));
                        ground.set_tile(target, *tile, false);
                        proof {
                            assert(self.writes(local));
                            self.lemma_restored_step(g0, g1, *ground, pos, self.done_before(local), local);
                            assert(self.done_before(next) =~= self.done_before(local).insert(local));
                        }
                    } else {
                        assert(self.done_before(next) =~= self.done_before(local));
                    }
                    x = x + 1;
                }
                assert(self.done_before(GridPos { x: w as i32, y: y as i32 }) =~= self.done_before(
                    GridPos { x: 0, y: (y + 1) as i32 },
                ));
                y = y + 1;
            }
            let right = pos.x + (w as i32);
            let top = pos.y + (h as i32);
            if pos.x < dirty_rect.left {
                dirty_rect.left = pos.x;
            }
            if right > dirty_rect.right {
                dirty_rect.right = right;
            }
            if pos.y < dirty_rect.bottom {
                dirty_rect.bottom = pos.y;
            }
            if top > dirty_rect.top {
                dirty_rect.top = top;
            }
        }
    }

    /// The local position `l` of a `w x h` area is marked in the row-major
    /// mask `inside`.
    pub open spec fn masked(inside: Seq<bool>, w: int, h: int, l: GridPos) -> bool {
        &&& 0 <= l.x < w
        &&& 0 <= l.y < h
        &&& inside[l.y * w + l.x]
    }

    /// The marked local positions before `cur`.
    pub open spec fn masked_before(inside: Seq<bool>, w: int, h: int, cur: GridPos) -> Set<GridPos> {
        Set::new(|l: GridPos| Self::masked(inside, w, h, l) && before(l, cur))
    }

    /// `g` is `g0` with the ground cell of every local position in `done`
    /// (taken at offset `o`) emptied.
    pub open spec fn carved(g0: Ground, g: Ground, o: GridPos, done: Set<GridPos>) -> bool {
        &&& g0.wf()
        &&& g.wf()
        &&& g.palette() == g0.palette()
        &&& g.tiles().same_shape(g0.tiles())
        &&& forall|l: GridPos|
            #[trigger] done.contains(l) && g0.tiles().has_cell(sum(o, l)) ==> g.tiles().cells()[g0.tiles().index_of(
                sum(o, l),
            )] is None
        &&& forall|i: int|
            0 <= i < g.tiles().cells().len() && (forall|l: GridPos|
                #[trigger] done.contains(l) && g0.tiles().has_cell(sum(o, l))
                    ==> g0.tiles().index_of(sum(o, l)) != i) ==> #[trigger] g.tiles().cells()[i]
                == g0.tiles().cells()[i]
    }

    /// The tile saved for local position `l`: the ground's tile there, when
    /// `l` is marked and no marked position before it reaches the same
    /// ground cell (that one took the tile first); otherwise none.
    pub open spec fn carved_tile(g0: Ground, o: GridPos, inside: Seq<bool>, w: int, h: int, l: GridPos) -> Option<
        GroundMaterialRef,
    > {
        if Self::masked(inside, w, h, l) && (forall|l2: GridPos|
            #[trigger] Self::masked(inside, w, h, l2) && before(l2, l) ==> !(g0.tiles().has_cell(sum(o, l2))
                && g0.tiles().has_cell(sum(o, l)) && g0.tiles().index_of(sum(o, l2)) == g0.tiles().index_of(
                sum(o, l),
            ))) {
            g0.tiles().cell(sum(o, l))
        } else {
            None
        }
    }

    proof fn lemma_carve_step(
        g0: Ground,
        g: Ground,
        g2: Ground,
        o: GridPos,
        done: Set<GridPos>,
        cur: GridPos,
    )
        requires
            Self::carved(g0, g, o, done),
            g2.wf(),
            g2.palette() == g.palette(),
            g2.tiles().same_shape(g.tiles()),
            g2.tiles().cells() == g.tiles().after_remove(sum(o, cur)),
        ensures
            Self::carved(g0, g2, o, done.insert(cur)),
    {
        let t0 = g0.tiles();
        let d2 = done.insert(cur);
        assert forall|l: GridPos|
            #[trigger] d2.contains(l) && t0.has_cell(sum(o, l)) implies g2.tiles().cells()[t0.index_of(sum(o, l))] is None by {
            if l != cur {
                assert(done.contains(l));
            }
        }
        assert forall|i: int|
            0 <= i < g2.tiles().cells().len() && (forall|l: GridPos|
                #[trigger] d2.contains(l) && t0.has_cell(sum(o, l)) ==> t0.index_of(sum(o, l)) != i)
                implies #[trigger] g2.tiles().cells()[i] == t0.cells()[i] by {
            assert(d2.contains(cur));
            assert forall|l: GridPos|
                #[trigger] done.contains(l) && t0.has_cell(sum(o, l)) implies t0.index_of(sum(o, l)) != i by {
                assert(d2.contains(l));
            }
            assert(g.tiles().cells()[i] == t0.cells()[i]);
        }
    }

    /// Takes, from the ground, the tiles of the area `bounds` marked in
    /// `inside` (row-major, one entry per tile of `bounds`): each marked
    /// tile is moved into the saved grid, which is first reset to the size
    /// of `bounds`, and its ground cell emptied.
    pub fn carve(&mut self, ground: &mut Ground, bounds: Rect, inside: &Vec<bool>)
        requires
            old(ground).wf(),
            bounds.left <= bounds.right,
            bounds.bottom <= bounds.top,
            bounds.right - bounds.left < i32::MAX,
            bounds.top - bounds.bottom < i32::MAX,
            next_pow2((bounds.right - bounds.left) as nat) * ((bounds.top - bounds.bottom) as nat) <= usize::MAX,
            inside@.len() == (bounds.right - bounds.left) * (bounds.top - bounds.bottom),
        ensures
            ({
                let o = GridPos { x: bounds.left, y: bounds.bottom };
                let w = bounds.right - bounds.left;
                let h = bounds.top - bounds.bottom;
                &&& final(self).wf()
                &&& final(self).pos() == Some(o)
                &&& final(self).saved().spec_width() == w
                &&& final(self).saved().spec_height() == h
                &&& Self::carved(*old(ground), *final(ground), o, Self::masked_before(inside@, w, h, GridPos { x: 0, y: h as i32 }))
                &&& forall|l: GridPos| #[trigger] final(self).is_local(l) ==> final(self).saved().cell(l)
                    == Self::carved_tile(*old(ground), o, inside@, w, h, l)
                &&& final(ground).spec_entity() == old(ground).spec_entity()
                &&& final(ground).dirty() == old(ground).dirty()
            }),
    {
        let w = (bounds.right - bounds.left) as u32;
        let h = (bounds.top - bounds.bottom) as u32;
        let origin = GridPos { x: bounds.left, y: bounds.bottom };
        let ghost wi = w as int;
        let ghost hi = h as int;
        let ghost g0 = *ground;
        self.ground_pos = Some(origin);
        self.ground.reset(w, h, None);
        proof {
            assert(Self::masked_before(inside@, wi, hi, GridPos { x: 0, y: 0 }) =~= Set::<GridPos>::empty());
            assert forall|l: GridPos| #[trigger] self.is_local(l) implies self.saved().cell(l) is None by {
                law_filled(self.saved(), None, l);
            }
        }
        let mut y: u32 = 0;
        while y < h
            invariant
                self.wf(),
                self.pos() == Some(origin),
                origin == (GridPos { x: bounds.left, y: bounds.bottom }),
                wi == w,
                hi == h,
                w == bounds.right - bounds.left,
                h == bounds.top - bounds.bottom,
                self.saved().spec_width() == w,
                self.saved().spec_height() == h,
                inside@.len() == wi * hi,
                y <= h,
                Self::carved(g0, *ground, origin, Self::masked_before(inside@, wi, hi, GridPos { x: 0, y: y as i32 })),
                forall|l: GridPos| #[trigger] self.is_local(l) ==> self.saved().cell(l) == if before(
                    l,
                    GridPos { x: 0, y: y as i32 },
                ) {
                    Self::carved_tile(g0, origin, inside@, wi, hi, l)
                } else {
                    None
                },
                ground.spec_entity() == g0.spec_entity(),
                ground.dirty() == g0.dirty(),
            decreases h - y,
        {
            let mut x: u32 = 0;
            while x < w
                invariant
                    self.wf(),
                    self.pos() == Some(origin),
                    origin == (GridPos { x: bounds.left, y: bounds.bottom }),
                    wi == w,
                    hi == h,
                    w == bounds.right - bounds.left,
                    h == bounds.top - bounds.bottom,
                    self.saved().spec_width() == w,
                    self.saved().spec_height() == h,
                    inside@.len() == wi * hi,
                    y < h,
                    x <= w,
                    Self::carved(g0, *ground, origin, Self::masked_before(inside@, wi, hi, GridPos { x: x as i32, y: y as i32 })),
                    forall|l: GridPos| #[trigger] self.is_local(l) ==> self.saved().cell(l) == if before(
                        l,
                        GridPos { x: x as i32, y: y as i32 },
                    ) {
                        Self::carved_tile(g0, origin, inside@, wi, hi, l)
                    } else {
                        None
                    },
                    ground.spec_entity() == g0.spec_entity(),
                    ground.dirty() == g0.dirty(),
                decreases w - x,
            {
                let local = GridPos { x: x as i32, y: y as i32 };
                let next = GridPos { x: (x + 1) as i32, y: y as i32 };
                let ghost done = Self::masked_before(inside@, wi, hi, local);
                assert((y as int) * wi + (x as int) < wi * hi) by (nonlinear_arith)
                    requires
                        0 <= x < wi,
                        0 <= y < hi,
                ;
                assert(0 <= (y as int) * wi) by (nonlinear_arith)
                    requires
                        0 <= y,
                        0 <= wi,
                ;
                let yu = y as usize;
                let wu = w as usize;
                assert(yu * wu == (y as int) * wi);
                let n = inside.len();
                assert(yu * wu + x < n);
                let k = yu * wu + (x as usize);
                if inside[k] {
                    assert(Self::masked(inside@, wi, hi, local));
                    let sample = origin + local;
                    assert(sample == sum(origin, local));
                    let ghost g1 = *ground;
                    let tile = ground.get_tile_ref(sample);
                    proof {
                        assert(tile == Self::carved_tile(g0, origin, inside@, wi, hi, local)) by {
                            let t0 = g0.tiles();
                            if t0.has_cell(sample) {
                                let j = t0.index_of(sample);
                                if exists|l2: GridPos| #[trigger] Self::masked(inside@, wi, hi, l2) && before(l2, local)
                                    && t0.has_cell(sum(origin, l2)) && t0.index_of(sum(origin, l2)) == j {
                                    let l2 = choose|l2: GridPos| #[trigger] Self::masked(inside@, wi, hi, l2) && before(l2, local)
                                        && t0.has_cell(sum(origin, l2)) && t0.index_of(sum(origin, l2)) == j;
                                    assert(done.contains(l2));
                                } else {
                                    assert forall|l: GridPos|
                                        #[trigger] done.contains(l) && t0.has_cell(sum(origin, l))
                                            implies t0.index_of(sum(origin, l)) != j by {
                                        assert(Self::masked(inside@, wi, hi, l));
                                    }
                                    assert(g1.tiles().cells()[j] == t0.cells()[j]);
                                }
                            }
                        }
                    }
                    ground.clear_tile(sample, false);
                    proof {
                        Self::lemma_carve_step(g0, g1, *ground, origin, done, local);
                        assert(Self::masked_before(inside@, wi, hi, next) =~= done.insert(local));
                    }
                    if let Some(tile) = tile {
                        let ghost s0 = self.saved();
                        let ghost c0 = *self;
                        self.ground.insert(local, tile);
                        proof {
                            assert forall|l: GridPos| #[trigger] self.is_local(l) implies self.saved().cell(l) == if before(l, next) {
                                Self::carved_tile(g0, origin, inside@, wi, hi, l)
                            } else {
                                None
                            } by {
                                law_get_after_insert(s0, self.saved(), local, tile, l);
                                assert(c0.is_local(l));
                            }
                        }
                    } else {
                        proof {
                            assert forall|l: GridPos| #[trigger] self.is_local(l) implies self.saved().cell(l) == if before(l, next) {
                                Self::carved_tile(g0, origin, inside@, wi, hi, l)
                            } else {
                                None
                            } by {
                            }
                        }
                    }
                } else {
                    proof {
                        assert(!Self::masked(inside@, wi, hi, local));
                        assert(Self::masked_before(inside@, wi, hi, next) =~= done);
                        assert forall|l: GridPos| #[trigger] self.is_local(l) implies self.saved().cell(l) == if before(l, next) {
                            Self::carved_tile(g0, origin, inside@, wi, hi, l)
                        } else {
                            None
                        } by {
                        }
                    }
                }
                x = x + 1;
            }
            proof {
                assert(Self::masked_before(inside@, wi, hi, GridPos { x: w as i32, y: y as i32 }) =~= Self::masked_before(
                    inside@,
                    wi,
                    hi,
                    GridPos { x: 0, y: (y + 1) as i32 },
                ));
                assert forall|l: GridPos| #[trigger] self.is_local(l) implies (before(l, GridPos { x: w as i32, y: y as i32 })
                    <==> before(l, GridPos { x: 0, y: (y + 1) as i32 })) by {
                }
            }
            y = y + 1;
        }
        proof {
            assert forall|l: GridPos| #[trigger] self.is_local(l) implies before(l, GridPos { x: 0, y: h as i32 }) by {
            }
        }
    }
}

impl Default for NavGridCarve {
    /// Nothing saved yet: an empty 1 x 1 saved grid.
    fn default() -> (r: Self)
        ensures
            r.wf(),
            r.pos() is None,
            r.saved().spec_width() == 1,
            r.saved().spec_height() == 1,
            SparseGrid::<GroundMaterialRef>::filled_with(r.saved().cells(), None),
    {
        proof {
            assert(crate::ai::sparse_grid::next_pow2(1) == 1);
        }
        Self { ground_pos: None, ground: SparseGrid::new(1, 1, None) }
    }
}

/// A building gives back the ground it covered: carving an area that lies
/// inside the ground and then restoring the saved tiles leaves every tile of
/// the ground as it was before the carve.
pub proof fn law_restore_undoes_carve(
    g0: Ground,
    g1: Ground,
    g2: Ground,
    c: NavGridCarve,
    bounds: Rect,
    inside: Seq<bool>,
    q: GridPos,
)
    requires
        g0.wf(),
        0 <= bounds.left <= bounds.right <= g0.tiles().spec_width(),
        0 <= bounds.bottom <= bounds.top <= g0.tiles().spec_height(),
        inside.len() == (bounds.right - bounds.left) * (bounds.top - bounds.bottom),
        c.wf(),
        c.pos() == Some(GridPos { x: bounds.left, y: bounds.bottom }),
        c.saved().spec_width() == bounds.right - bounds.left,
        c.saved().spec_height() == bounds.top - bounds.bottom,
        NavGridCarve::carved(
            g0,
            g1,
            GridPos { x: bounds.left, y: bounds.bottom },
            NavGridCarve::masked_before(
                inside,
                bounds.right - bounds.left,
                bounds.top - bounds.bottom,
                GridPos { x: 0, y: (bounds.top - bounds.bottom) as i32 },
            ),
        ),
        forall|l: GridPos| #[trigger] c.is_local(l) ==> c.saved().cell(l) == NavGridCarve::carved_tile(
            g0,
            GridPos { x: bounds.left, y: bounds.bottom },
            inside,
            bounds.right - bounds.left,
            bounds.top - bounds.bottom,
            l,
        ),
        c.restored(
            g1,
            g2,
            GridPos { x: bounds.left, y: bounds.bottom },
            c.done_before(GridPos { x: 0, y: c.saved().spec_height() as i32 }),
        ),
        g0.tiles().in_bounds(q),
    ensures
        g2.tiles().cell(q) == g0.tiles().cell(q),
{
    let o = GridPos { x: bounds.left, y: bounds.bottom };
    let w = bounds.right - bounds.left;
    let h = bounds.top - bounds.bottom;
    let t0 = g0.tiles();
    let t1 = g1.tiles();
    let t2 = g2.tiles();
    let mdone = NavGridCarve::masked_before(inside, w, h, GridPos { x: 0, y: h as i32 });
    let rdone = c.done_before(GridPos { x: 0, y: h as i32 });
    law_in_bounds_cells_distinct(t0, q, q);
    let iq = t0.index_of(q);
    // A local position reaches an in-bounds ground cell, distinct from that
    // of any other local position.
    assert forall|l: GridPos| c.is_local(l) implies #[trigger] t0.in_bounds(sum(o, l)) by {
    }
    assert forall|l: GridPos| c.is_local(l) && sum(o, l) != q implies #[trigger] t0.index_of(sum(o, l)) != iq
        && t0.has_cell(sum(o, l)) by {
        law_in_bounds_cells_distinct(t0, sum(o, l), q);
    }
    let inside_rect = bounds.left <= q.x < bounds.right && bounds.bottom <= q.y < bounds.top;
    if inside_rect {
        let lq = GridPos { x: (q.x - bounds.left) as i32, y: (q.y - bounds.bottom) as i32 };
        assert(sum(o, lq) == q);
        assert(c.is_local(lq));
        // no other local position reaches q's cell
        assert forall|l2: GridPos| c.is_local(l2) && l2 != lq implies #[trigger] t0.index_of(sum(o, l2)) != iq by {
            assert(t0.index_of(sum(o, l2)) != iq);
        }
        if NavGridCarve::masked(inside, w, h, lq) {
            assert forall|l2: GridPos|
                #[trigger] NavGridCarve::masked(inside, w, h, l2) && before(l2, lq) implies !(t0.has_cell(sum(o, l2))
                    && t0.has_cell(sum(o, lq)) && t0.index_of(sum(o, l2)) == t0.index_of(sum(o, lq))) by {
                assert(c.is_local(l2));
            }
            assert(c.saved().cell(lq) == t0.cell(q));
            assert(mdone.contains(lq));
            assert(t1.cells()[iq] is None);
            if t0.cell(q) is Some {
                assert(c.writes(lq));
                assert(rdone.contains(lq));
                assert forall|l2: GridPos|
                    #[trigger] rdone.contains(l2) && before(lq, l2) implies !(t1.has_cell(sum(o, l2))
                        && t1.index_of(sum(o, l2)) == t1.index_of(sum(o, lq))) by {
                    assert(c.is_local(l2));
                }
                assert(t2.cells()[t1.index_of(sum(o, lq))] == c.saved().cell(lq));
            } else {
                assert forall|l: GridPos| #[trigger] rdone.contains(l) && t1.has_cell(sum(o, l))
                    implies t1.index_of(sum(o, l)) != iq by {
                    assert(c.is_local(l));
                    if l == lq {
                        assert(c.saved().cell(lq) is None);
                    }
                }
                assert(t2.cells()[iq] == t1.cells()[iq]);
            }
        } else {
            assert forall|l: GridPos| #[trigger] mdone.contains(l) && t0.has_cell(sum(o, l))
                implies t0.index_of(sum(o, l)) != iq by {
                assert(c.is_local(l));
            }
            assert(t1.cells()[iq] == t0.cells()[iq]);
            assert(c.saved().cell(lq) is None);
            assert forall|l: GridPos| #[trigger] rdone.contains(l) && t1.has_cell(sum(o, l))
                implies t1.index_of(sum(o, l)) != iq by {
                assert(c.is_local(l));
            }
            assert(t2.cells()[iq] == t1.cells()[iq]);
        }
    } else {
        assert forall|l: GridPos| #[trigger] mdone.contains(l) && t0.has_cell(sum(o, l))
            implies t0.index_of(sum(o, l)) != iq by {
            assert(c.is_local(l));
            assert(sum(o, l) != q);
        }
        assert(t1.cells()[iq] == t0.cells()[iq]);
        assert forall|l: GridPos| #[trigger] rdone.contains(l) && t1.has_cell(sum(o, l))
            implies t1.index_of(sum(o, l)) != iq by {
            assert(c.is_local(l));
            assert(sum(o, l) != q);
        }
        assert(t2.cells()[iq] == t1.cells()[iq]);
    }
}

} // verus!
