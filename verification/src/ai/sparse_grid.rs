use vstd::prelude::*;

verus! {

/// A cell coordinate on the navigation grid.
#[derive(Copy, Clone, Debug, Eq, Hash, PartialEq, Structural)]
pub struct GridPos {
    pub x: i32,
    pub y: i32,
}

impl GridPos {
    #[inline]
    pub fn new(x: i32, y: i32) -> (r: Self)
        ensures
            r.x == x,
            r.y == y,
    {
        Self { x, y }
    }

    /// The four von Neumann neighbour offsets: left, right, down, up.
    pub fn vn_offsets() -> (r: [GridPos; 4])
        ensures
            r@ == seq![
                GridPos { x: -1i32, y: 0i32 },
                GridPos { x: 1i32, y: 0i32 },
                GridPos { x: 0i32, y: -1i32 },
                GridPos { x: 0i32, y: 1i32 },
            ],
    {
        [GridPos::new(-1, 0), GridPos::new(1, 0), GridPos::new(0, -1), GridPos::new(0, 1)]
    }
}

/// Component-wise sum of two positions fits in `i32`.
pub open spec fn sum_fits(a: GridPos, b: GridPos) -> bool {
    &&& i32::MIN <= a.x + b.x <= i32::MAX
    &&& i32::MIN <= a.y + b.y <= i32::MAX
}

/// Component-wise difference of two positions fits in `i32`.
pub open spec fn diff_fits(a: GridPos, b: GridPos) -> bool {
    &&& i32::MIN <= a.x - b.x <= i32::MAX
    &&& i32::MIN <= a.y - b.y <= i32::MAX
}

/// Component-wise sum.
pub open spec fn sum(a: GridPos, b: GridPos) -> GridPos {
    GridPos { x: (a.x + b.x) as i32, y: (a.y + b.y) as i32 }
}

/// Component-wise difference.
pub open spec fn diff(a: GridPos, b: GridPos) -> GridPos {
    GridPos { x: (a.x - b.x) as i32, y: (a.y - b.y) as i32 }
}

impl vstd::std_specs::ops::AddSpecImpl for GridPos {
    open spec fn obeys_add_spec() -> bool {
        true
    }

    open spec fn add_req(self, rhs: GridPos) -> bool {
        sum_fits(self, rhs)
    }

    open spec fn add_spec(self, rhs: GridPos) -> GridPos {
        sum(self, rhs)
    }
}

impl core::ops::Add for GridPos {
    type Output = Self;

    fn add(self, rhs: GridPos) -> (r: Self::Output) {
        Self { x: self.x + rhs.x, y: self.y + rhs.y }
    }
}

impl vstd::std_specs::ops::SubSpecImpl for GridPos {
    open spec fn obeys_sub_spec() -> bool {
        true
    }

    open spec fn sub_req(self, rhs: GridPos) -> bool {
        diff_fits(self, rhs)
    }

    open spec fn sub_spec(self, rhs: GridPos) -> GridPos {
        diff(self, rhs)
    }
}

impl core::ops::Sub for GridPos {
    type Output = Self;

    fn sub(self, rhs: GridPos) -> (r: Self::Output) {
        Self { x: self.x - rhs.x, y: self.y - rhs.y }
    }
}

/// `n` is a power of two (1, 2, 4, ...).
pub open spec fn is_pow2(n: nat) -> bool
    decreases n,
{
    if n == 1 {
        true
    } else if n >= 2 && n % 2 == 0 {
        is_pow2((n / 2) as nat)
    } else {
        false
    }
}

/// The smallest power of two that is at least `w` (1 for `w == 0`).
pub open spec fn next_pow2(w: nat) -> nat
    decreases w,
{
    if w <= 1 {
        1
    } else {
        2 * next_pow2(((w + 1) / 2) as nat)
    }
}

/// `next_pow2(w)` is a power of two, at least `w`, and no smaller power of two is.
pub proof fn lemma_next_pow2(w: nat)
    ensures
        is_pow2(next_pow2(w)),
        w <= next_pow2(w),
        next_pow2(w) == 1 || next_pow2(w) / 2 < w,
    decreases w,
{
    if w > 1 {
        lemma_next_pow2(((w + 1) / 2) as nat);
        let p = next_pow2(((w + 1) / 2) as nat);
        assert((2 * p) % 2 == 0);
        assert((2 * p) / 2 == p);
    }
}

/// Calls `u32::next_power_of_two`, which returns the smallest power of two
/// greater than or equal to its argument (1 for 0). It overflows for
/// arguments above 2^31, which `requires` excludes.
#[verifier::external_body]
fn next_power_of_two(w: u32) -> (r: u32)
    requires
        w <= 0x8000_0000,
    ensures
        r as nat == next_pow2(w as nat),
{
    w.next_power_of_two()
}

/// A dense row-major grid whose rows are `po2_width` cells apart; each cell
/// may hold a value.
#[derive(Clone, Debug)]
pub struct SparseGrid<V: 'static> {
    width: u32,
    po2_width: u32,
    height: u32,
    values: Vec<Option<V>>,
}

impl<V: 'static> SparseGrid<V> {
    pub closed spec fn spec_width(self) -> nat {
        self.width as nat
    }

    pub closed spec fn spec_po2_width(self) -> nat {
        self.po2_width as nat
    }

    pub closed spec fn spec_height(self) -> nat {
        self.height as nat
    }

    /// The cells in storage order.
    pub closed spec fn cells(self) -> Seq<Option<V>> {
        self.values@
    }

    /// Well-formedness: the row stride is the next power of two of the width,
    /// and the storage holds exactly `stride * height` cells.
    pub open spec fn wf(self) -> bool {
        &&& self.spec_width() <= 0x8000_0000
        &&& self.spec_po2_width() == next_pow2(self.spec_width())
        &&& self.cells().len() == self.spec_po2_width() * self.spec_height()
    }

    /// Storage index of `pos`.
    pub open spec fn index_of(self, pos: GridPos) -> int {
        pos.y as int * self.spec_po2_width() as int + pos.x as int
    }

    /// `pos` addresses a stored cell.
    pub open spec fn has_cell(self, pos: GridPos) -> bool {
        &&& pos.x >= 0
        &&& pos.y >= 0
        &&& self.index_of(pos) < self.cells().len()
    }

    /// `pos` lies inside `width x height`.
    pub open spec fn in_bounds(self, pos: GridPos) -> bool {
        &&& 0 <= pos.x < self.spec_width()
        &&& 0 <= pos.y < self.spec_height()
    }

    /// What the grid holds at `pos` (`None` where no cell is stored).
    pub open spec fn cell(self, pos: GridPos) -> Option<V> {
        if self.has_cell(pos) {
            self.cells()[self.index_of(pos)]
        } else {
            None
        }
    }

    /// `other` has the same width, row stride and height as `self`.
    pub open spec fn same_shape<W>(self, other: SparseGrid<W>) -> bool {
        &&& self.spec_width() == other.spec_width()
        &&& self.spec_po2_width() == other.spec_po2_width()
        &&& self.spec_height() == other.spec_height()
    }

    /// The cells once `value` is written at `pos` (nothing changes where
    /// `pos` addresses no stored cell).
    pub open spec fn after_insert(self, pos: GridPos, value: V) -> Seq<Option<V>> {
        if self.has_cell(pos) {
            self.cells().update(self.index_of(pos), Some(value))
        } else {
            self.cells()
        }
    }

    /// The cells once `pos` is emptied.
    pub open spec fn after_remove(self, pos: GridPos) -> Seq<Option<V>> {
        if self.has_cell(pos) {
            self.cells().update(self.index_of(pos), None)
        } else {
            self.cells()
        }
    }

    /// `fill` was copied into every cell.
    pub open spec fn filled_with(cells: Seq<Option<V>>, fill: Option<V>) -> bool where V: Clone {
        forall|i: int|
            0 <= i < cells.len() ==> match fill {
                None => (#[trigger] cells[i]) is None,
                Some(f) => cells[i] is Some && cloned::<V>(f, cells[i]->0),
            }
    }

    fn make_values(len: usize, fill: Option<V>) -> (values: Vec<Option<V>>) where V: Clone
        ensures
            values@.len() == len,
            Self::filled_with(values@, fill),
    {
        let mut values: Vec<Option<V>> = Vec::new();
        values.resize(len, fill);
        values
    }

    pub fn new(width: u32, height: u32, fill: Option<V>) -> (r: Self) where V: Clone
        requires
            width <= 0x8000_0000,
            next_pow2(width as nat) * height <= usize::MAX,
        ensures
            r.wf(),
            r.spec_width() == width,
            r.spec_height() == height,
            Self::filled_with(r.cells(), fill),
    {
        let po2_width = next_power_of_two(width);
        let values = Self::make_values((po2_width as usize) * (height as usize), fill);
        Self { width, po2_width, height, values }
    }

    pub fn width(&self) -> (r: u32)
        ensures
            r == self.spec_width(),
    {
        self.width
    }

    pub fn height(&self) -> (r: u32)
        ensures
            r == self.spec_height(),
    {
        self.height
    }

    /// Storage index of `pos`, where a cell is stored there.
    fn grid_idx(&self, pos: GridPos) -> (r: Option<usize>)
        requires
            self.wf(),
        ensures
            r is Some <==> self.has_cell(pos),
            r is Some ==> r->0 == self.index_of(pos),
    {
        if pos.x < 0 || pos.y < 0 {
            return None;
        }
        let y = pos.y as u64;
        let x = pos.x as u64;
        let w = self.po2_width as u64;
        assert(y * w <= 0x8000_0000u64 * 0xffff_ffffu64) by (nonlinear_arith)
            requires
                y < 0x8000_0000,
                w <= 0xffff_ffff,
        ;
        let idx = y * w + x;
        if idx < self.values.len() as u64 {
            Some(idx as usize)
        } else {
            None
        }
    }

    #[inline]
    pub fn insert(&mut self, pos: GridPos, value: V)
        requires
            old(self).wf(),
        ensures
            final(self).wf(),
            final(self).same_shape(*old(self)),
            final(self).cells() == old(self).after_insert(pos, value),
    {
        if let Some(index) = self.grid_idx(pos) {
            self.values.set(index, Some(value));
        }
    }

    #[inline]
    pub fn contains(&self, pos: GridPos) -> (r: bool)
        requires
            self.wf(),
        ensures
            r == self.cell(pos) is Some,
    {
        match self.grid_idx(pos) {
            Some(index) => self.values[index].is_some(),
            None => false,
        }
    }

    #[inline]
    pub fn get(&self, pos: GridPos) -> (r: Option<&V>)
        requires
            self.wf(),
        ensures
            r is Some <==> self.cell(pos) is Some,
            r is Some ==> *r->0 == self.cell(pos)->0,
    {
        match self.grid_idx(pos) {
            Some(index) => self.values[index].as_ref(),
            None => None,
        }
    }

    #[inline]
    pub fn get_mut(&mut self, pos: GridPos) -> (r: Option<&mut V>)
        requires
            old(self).wf(),
        ensures
            r is Some <==> old(self).cell(pos) is Some,
            r is Some ==> *r.unwrap() == old(self).cell(pos)->0,
            final(self).wf(),
            final(self).same_shape(*old(self)),
            r is Some ==> final(self).cells() == old(self).cells().update(
                old(self).index_of(pos),
                Some(*final(r.unwrap())),
            ),
            r is None ==> final(self).cells() == old(self).cells(),
    {
        match self.grid_idx(pos) {
            Some(index) => self.values[index].as_mut(),
            None => None,
        }
    }

    #[inline]
    pub fn remove(&mut self, pos: GridPos) -> (r: Option<V>)
        requires
            old(self).wf(),
        ensures
            r == old(self).cell(pos),
            final(self).wf(),
            final(self).same_shape(*old(self)),
            final(self).cells() == old(self).after_remove(pos),
    {
        match self.grid_idx(pos) {
            Some(index) => self.values[index].take(),
            None => None,
        }
    }

    pub fn reset(&mut self, new_width: u32, new_height: u32, fill: Option<V>) where V: Clone
        requires
            new_width <= 0x8000_0000,
            next_pow2(new_width as nat) * new_height <= usize::MAX,
        ensures
            final(self).wf(),
            final(self).spec_width() == new_width,
            final(self).spec_height() == new_height,
            Self::filled_with(final(self).cells(), fill),
    {
        self.values.clear();
        self.width = new_width;
        self.height = new_height;
        self.po2_width = next_power_of_two(new_width);
        self.values.resize((self.po2_width as usize) * (new_height as usize), fill);
    }
}

impl<V: 'static> View for SparseGrid<V> {
    type V = Map<GridPos, V>;

    /// The positions inside `width x height` that hold a value, each with
    /// its value.
    open spec fn view(&self) -> Map<GridPos, V> {
        Map::new(|p: GridPos| self.in_bounds(p) && self.cell(p) is Some, |p: GridPos| self.cell(p)->0)
    }
}

/// Rows are `stride` cells apart, so a cell with `0 <= x < stride` of a row
/// below `height` lies in the first `stride * height` cells, and no two such
/// cells share an index.
proof fn lemma_row_major(stride: int, height: int, x1: int, y1: int, x2: int, y2: int)
    requires
        0 <= x1 < stride,
        0 <= x2 < stride,
        0 <= y1 < height,
        0 <= y2,
    ensures
        y1 * stride + x1 < stride * height,
        (x1 != x2 || y1 != y2) ==> y1 * stride + x1 != y2 * stride + x2,
{
    assert(y1 * stride + x1 < stride * height) by (nonlinear_arith)
        requires
            0 <= x1 < stride,
            0 <= y1 < height,
    ;
    if y1 < y2 {
        assert(y1 * stride + x1 < y2 * stride + x2) by (nonlinear_arith)
            requires
                0 <= x1 < stride,
                0 <= x2,
                y1 < y2,
        ;
    } else if y2 < y1 {
        assert(y2 * stride + x2 < y1 * stride + x1) by (nonlinear_arith)
            requires
                0 <= x2 < stride,
                0 <= x1,
                y2 < y1,
        ;
    }
}

/// Every position inside `width x height` addresses a stored cell, and two
/// different such positions address different cells.
pub proof fn law_in_bounds_cells_distinct<V>(g: SparseGrid<V>, a: GridPos, b: GridPos)
    requires
        g.wf(),
        g.in_bounds(a),
    ensures
        g.has_cell(a),
        g.in_bounds(b) && a != b ==> g.index_of(a) != g.index_of(b),
{
    lemma_next_pow2(g.spec_width());
    if g.in_bounds(b) {
        lemma_row_major(
            g.spec_po2_width() as int,
            g.spec_height() as int,
            a.x as int,
            a.y as int,
            b.x as int,
            b.y as int,
        );
    } else {
        lemma_row_major(
            g.spec_po2_width() as int,
            g.spec_height() as int,
            a.x as int,
            a.y as int,
            a.x as int,
            a.y as int,
        );
    }
}

/// A read after a write: once `value` is written at an in-bounds `pos`, `pos`
/// holds `value` and every other in-bounds position keeps what it held.
pub proof fn law_get_after_insert<V>(g: SparseGrid<V>, h: SparseGrid<V>, pos: GridPos, value: V, other: GridPos)
    requires
        g.wf(),
        h.same_shape(g),
        h.cells() == g.after_insert(pos, value),
        g.in_bounds(pos),
    ensures
        h.cell(pos) == Some(value),
        g.in_bounds(other) && other != pos ==> h.cell(other) == g.cell(other),
{
    law_in_bounds_cells_distinct(g, pos, other);
    if g.in_bounds(other) {
        law_in_bounds_cells_distinct(g, other, pos);
    }
}

/// Once an in-bounds `pos` is emptied it holds nothing, and every other
/// in-bounds position keeps what it held.
pub proof fn law_get_after_remove<V>(g: SparseGrid<V>, h: SparseGrid<V>, pos: GridPos, other: GridPos)
    requires
        g.wf(),
        h.same_shape(g),
        h.cells() == g.after_remove(pos),
        g.in_bounds(pos),
    ensures
        h.cell(pos) is None,
        g.in_bounds(other) && other != pos ==> h.cell(other) == g.cell(other),
{
    law_in_bounds_cells_distinct(g, pos, other);
    if g.in_bounds(other) {
        law_in_bounds_cells_distinct(g, other, pos);
    }
}

/// A grid made by `new` or `reset` holds a copy of `fill` at every in-bounds
/// position.
pub proof fn law_filled<V: Clone>(g: SparseGrid<V>, fill: Option<V>, pos: GridPos)
    requires
        g.wf(),
        SparseGrid::<V>::filled_with(g.cells(), fill),
        g.in_bounds(pos),
    ensures
        fill is None ==> g.cell(pos) is None,
        fill is Some ==> g.cell(pos) is Some && cloned::<V>(fill->0, g.cell(pos)->0),
{
    law_in_bounds_cells_distinct(g, pos, pos);
}

/// Adding then subtracting the same offset gives back the position.
pub proof fn law_add_sub_inverse(a: GridPos, b: GridPos)
    requires
        sum_fits(a, b),
    ensures
        diff_fits(sum(a, b), b),
        diff(sum(a, b), b) == a,
{
}

} // verus!
