use vstd::prelude::*;

use crate::grid::{grow_to, grown_to};

verus! {

/// A cell coordinate of a [`SparseGrid`].
#[derive(Debug)]
pub struct GridPos {
    pub x: u32,
    pub y: u32,
}

impl Clone for GridPos {
    fn clone(&self) -> (r: Self)
        ensures
            r == *self,
    {
        GridPos { x: self.x, y: self.y }
    }
}

impl GridPos {
    pub fn new(x: u32, y: u32) -> (r: Self)
        ensures
            r.x == x,
            r.y == y,
    {
        Self { x, y }
    }
}

/// A square grid that stores the cell of `(x, y)` at index `x * width + y`
/// and grows on demand.
#[derive(Clone, Debug)]
pub struct SparseGrid<V: 'static> {
    pub width: u32,
    pub values: Vec<Option<V>>,
}

impl<V: 'static> SparseGrid<V> {
    /// The storage index of `pos`: `x * width + y`.
    pub open spec fn raw(self, pos: GridPos) -> nat {
        pos.x as nat * self.width as nat + pos.y as nat
    }

    /// What the grid holds at `pos` (`None` past the end of the storage).
    pub open spec fn cell(self, pos: GridPos) -> Option<V> {
        if self.raw(pos) < self.values@.len() {
            self.values@[self.raw(pos) as int]
        } else {
            None
        }
    }

    /// `width * width` cells, each a copy of `fill`.
    pub fn new(width: u32, fill: Option<V>) -> (r: Self) where V: Clone
        requires
            width as nat * width as nat <= usize::MAX,
        ensures
            r.width == width,
            r.values@.len() == width as nat * width as nat,
            forall|i: int|
                0 <= i < r.values@.len() ==> match fill {
                    None => (#[trigger] r.values@[i]) is None,
                    Some(f) => r.values@[i] is Some && cloned::<V>(f, r.values@[i]->0),
                },
    {
        let sz = width as usize;
        let mut values = Vec::new();
        values.resize(sz * sz, fill);
        Self { width, values }
    }

    /// The storage index of `pos`, where it fits in a `u64`.
    fn raw_pos(&self, pos: &GridPos) -> (r: u64)
        ensures
            r == self.raw(*pos),
    {
        assert(pos.x as u64 * self.width as u64 <= 0xffff_ffffu64 * 0xffff_ffffu64) by (nonlinear_arith)
            requires
                pos.x <= 0xffff_ffffu32,
                self.width <= 0xffff_ffffu32,
        ;
        (pos.x as u64) * (self.width as u64) + (pos.y as u64)
    }

    #[inline]
    pub fn insert(&mut self, index: GridPos, value: V)
        requires
            old(self).raw(index) < usize::MAX,
        ensures
            final(self).width == old(self).width,
            final(self).values@ == grown_to(old(self).values@, old(self).raw(index)).update(
                old(self).raw(index) as int,
                Some(value),
            ),
    {
        let index = self.raw_pos(&index) as usize;
        grow_to(&mut self.values, index);
        self.values.set(index, Some(value));
    }

    #[inline]
    pub fn contains(&self, index: GridPos) -> (r: bool)
        ensures
            r == self.cell(index) is Some,
    {
        let index = self.raw_pos(&index);
        if index < self.values.len() as u64 {
            self.values[index as usize].is_some()
        } else {
            false
        }
    }

    #[inline]
    pub fn get(&self, index: GridPos) -> (r: Option<&V>)
        ensures
            r is Some <==> self.cell(index) is Some,
            r is Some ==> *r->0 == self.cell(index)->0,
    {
        let index = self.raw_pos(&index);
        if index < self.values.len() as u64 {
            self.values[index as usize].as_ref()
        } else {
            None
        }
    }

    #[inline]
    pub fn get_mut(&mut self, index: GridPos) -> (r: Option<&mut V>)
        ensures
            final(self).width == old(self).width,
            r is Some <==> old(self).cell(index) is Some,
            r is Some ==> *r.unwrap() == old(self).cell(index)->0,
            r is Some ==> final(self).values@ == old(self).values@.update(
                old(self).raw(index) as int,
                Some(*final(r.unwrap())),
            ),
            r is None ==> final(self).values@ == old(self).values@,
    {
        let index = self.raw_pos(&index);
        if index < self.values.len() as u64 {
            self.values[index as usize].as_mut()
        } else {
            None
        }
    }

    #[inline]
    pub fn remove(&mut self, index: GridPos) -> (r: Option<V>)
        ensures
            r == old(self).cell(index),
            final(self).width == old(self).width,
            final(self).values@ == (if old(self).raw(index) < old(self).values@.len() {
                old(self).values@.update(old(self).raw(index) as int, None)
            } else {
                old(self).values@
            }),
    {
        let index = self.raw_pos(&index);
        if index < self.values.len() as u64 {
            self.values[index as usize].take()
        } else {
            None
        }
    }

    #[inline]
    pub fn get_or_insert_with<F: FnOnce() -> V>(&mut self, index: GridPos, func: F) -> (r: &mut V)
        requires
            old(self).raw(index) < usize::MAX,
            old(self).cell(index) is None ==> func.requires(()),
        ensures
            final(self).width == old(self).width,
            old(self).cell(index) is Some ==> *r == old(self).cell(index)->0,
            old(self).cell(index) is None ==> func.ensures((), *r),
            final(self).values@ == grown_to(old(self).values@, old(self).raw(index)).update(
                old(self).raw(index) as int,
                Some(*final(r)),
            ),
    {
        let index = self.raw_pos(&index) as usize;
        if index < self.values.len() {
            if self.values[index].is_none() {
                let value = func();
                self.values.set(index, Some(value));
            }
            return self.values[index].as_mut().unwrap();
        }
        grow_to(&mut self.values, index);
        let value = &mut self.values[index];
        *value = Some(func());
        value.as_mut().unwrap()
    }

    pub fn clear(&mut self)
        ensures
            final(self).width == old(self).width,
            final(self).values@.len() == 0,
    {
        self.values.clear();
    }
}

/// A read after a write: once `value` is inserted at `pos`, `pos` holds it,
/// and every position with another storage index keeps what it held.
pub proof fn law_get_after_insert<V>(g: SparseGrid<V>, h: SparseGrid<V>, pos: GridPos, value: V, other: GridPos)
    requires
        h.width == g.width,
        h.values@ == grown_to(g.values@, g.raw(pos)).update(g.raw(pos) as int, Some(value)),
    ensures
        h.cell(pos) == Some(value),
        g.raw(other) != g.raw(pos) ==> h.cell(other) == g.cell(other),
{
}

/// Once `pos` is removed it holds nothing, and every position with another
/// storage index keeps what it held.
pub proof fn law_get_after_remove<V>(g: SparseGrid<V>, h: SparseGrid<V>, pos: GridPos, other: GridPos)
    requires
        h.width == g.width,
        h.values@ == (if g.raw(pos) < g.values@.len() {
            g.values@.update(g.raw(pos) as int, None)
        } else {
            g.values@
        }),
    ensures
        h.cell(pos) is None,
        g.raw(other) != g.raw(pos) ==> h.cell(other) == g.cell(other),
{
}

/// Positions whose `y` is below the width have distinct storage indices.
pub proof fn law_raw_distinct<V>(g: SparseGrid<V>, a: GridPos, b: GridPos)
    requires
        a.y < g.width,
        b.y < g.width,
        a.x != b.x || a.y != b.y,
    ensures
        g.raw(a) != g.raw(b),
{
    let w = g.width as int;
    if a.x < b.x {
        assert(a.x * w + a.y < b.x * w + b.y) by (nonlinear_arith)
            requires
                a.x < b.x,
                0 <= a.y < w,
                0 <= b.y,
        ;
    } else if b.x < a.x {
        assert(b.x * w + b.y < a.x * w + a.y) by (nonlinear_arith)
            requires
                b.x < a.x,
                0 <= b.y < w,
                0 <= a.y,
        ;
    }
}

} // verus!
