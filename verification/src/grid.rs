use vstd::prelude::*;

verus! {

/// A cell coordinate of a [`Grid`].
#[derive(Debug)]
pub struct GridPos {
    pub x: u16,
    pub y: u16,
}

impl Clone for GridPos {
    fn clone(&self) -> (r: Self)
        ensures
            r == *self,
    {
        GridPos { x: self.x, y: self.y }
    }
}

impl GridPos {
    pub fn new(x: u16, y: u16) -> (r: Self)
        ensures
            r.x == x,
            r.y == y,
    {
        Self { x, y }
    }

    /// The storage index of `self`: `x * 1024 + y`.
    pub open spec fn raw(self) -> nat {
        self.x as nat * 1024 + self.y as nat
    }

    pub fn as_raw(&self) -> (r: usize)
        ensures
            r == self.raw(),
    {
        (self.x as usize) * 1024 + (self.y as usize)
    }
}

/// The cells of `cells` grown with empty cells so that index `i` exists.
pub open spec fn grown_to<V>(cells: Seq<Option<V>>, i: nat) -> Seq<Option<V>> {
    if i < cells.len() {
        cells
    } else {
        cells + Seq::new((i + 1 - cells.len()) as nat, |_k: int| None::<V>)
    }
}

/// Appends empty cells until index `index` exists.
pub fn grow_to<V>(values: &mut Vec<Option<V>>, index: usize)
    requires
        index < usize::MAX,
    ensures
        final(values)@ == grown_to(old(values)@, index as nat),
{
    let ghost start = values@;
    if values.len() <= index {
        while values.len() <= index
            invariant
                start.len() <= values@.len() <= index + 1,
                index < usize::MAX,
                values@ == start + Seq::new((values@.len() - start.len()) as nat, |_k: int| None::<V>),
            decreases index + 1 - values@.len(),
        {
            values.push(None);
        }
    }
    assert(final(values)@ =~= grown_to(start, index as nat));
}

/// A grid that stores the cell of `(x, y)` at index `x * 1024 + y` and grows
/// on demand.
#[derive(Debug)]
pub struct Grid<V: 'static> {
    pub values: Vec<Option<V>>,
}

impl<V: 'static> Grid<V> {
    /// What the grid holds at `pos` (`None` past the end of the storage).
    pub open spec fn cell(self, pos: GridPos) -> Option<V> {
        if pos.raw() < self.values@.len() {
            self.values@[pos.raw() as int]
        } else {
            None
        }
    }

    #[inline]
    pub fn new() -> (r: Self)
        ensures
            r.values@.len() == 0,
    {
        Self { values: Vec::new() }
    }

    pub fn with_capacity(capacity: usize) -> (r: Self)
        ensures
            r.values@.len() == 0,
    {
        Self { values: Vec::with_capacity(capacity) }
    }

    #[inline]
    pub fn insert(&mut self, index: GridPos, value: V)
        ensures
            final(self).values@ == grown_to(old(self).values@, index.raw()).update(
                index.raw() as int,
                Some(value),
            ),
    {
        let index = index.as_raw();
        grow_to(&mut self.values, index);
        self.values.set(index, Some(value));
    }

    #[inline]
    pub fn contains(&self, index: GridPos) -> (r: bool)
        ensures
            r == self.cell(index) is Some,
    {
        let index = index.as_raw();
        if index < self.values.len() {
            self.values[index].is_some()
        } else {
            false
        }
    }

    #[inline]
    pub fn get(&self, index: GridPos) -> (r: Option<&V>)
        ensures
            r is Some <==> self.cell(index) is Some,
            r is Some ==> *r->0 == self.cell(index)->0,
    {
        let index = index.as_raw();
        if index < self.values.len() {
            self.values[index].as_ref()
        } else {
            None
        }
    }

    #[inline]
    pub fn get_mut(&mut self, index: GridPos) -> (r: Option<&mut V>)
        ensures
            r is Some <==> old(self).cell(index) is Some,
            r is Some ==> *r.unwrap() == old(self).cell(index)->0,
            r is Some ==> final(self).values@ == old(self).values@.update(
                index.raw() as int,
                Some(*final(r.unwrap())),
            ),
            r is None ==> final(self).values@ == old(self).values@,
    {
        let index = index.as_raw();
        if index < self.values.len() {
            self.values[index].as_mut()
        } else {
            None
        }
    }

    #[inline]
    pub fn remove(&mut self, index: GridPos) -> (r: Option<V>)
        ensures
            r == old(self).cell(index),
            final(self).values@ == (if index.raw() < old(self).values@.len() {
                old(self).values@.update(index.raw() as int, None)
            } else {
                old(self).values@
            }),
    {
        let index = index.as_raw();
        if index < self.values.len() {
            self.values[index].take()
        } else {
            None
        }
    }

    #[inline]
    pub fn get_or_insert_with<F: FnOnce() -> V>(&mut self, index: GridPos, func: F) -> (r: &mut V)
        requires
            old(self).cell(index) is None ==> func.requires(()),
        ensures
            old(self).cell(index) is Some ==> *r == old(self).cell(index)->0,
            old(self).cell(index) is None ==> func.ensures((), *r),
            final(self).values@ == grown_to(old(self).values@, index.raw()).update(
                index.raw() as int,
                Some(*final(r)),
            ),
    {
        let index = index.as_raw();
        if index < self.values.len() {
            if self.values[index].is_none() {
                let value = func();
                self.values.set(index, Some(value));
            }
            return self.values[index].as_mut().unwrap();
        }
        grow_to(&mut self.values, index);
        let value = &mut self.values[index];
        *value = Some(func());
        value.as_mut().unwrap()
    }

    pub fn clear(&mut self)
        ensures
            final(self).values@.len() == 0,
    {
        self.values.clear();
    }
}

/// A read after a write: once `value` is inserted at `pos`, `pos` holds it,
/// and every position with another storage index keeps what it held.
pub proof fn law_get_after_insert<V>(g: Grid<V>, h: Grid<V>, pos: GridPos, value: V, other: GridPos)
    requires
        h.values@ == grown_to(g.values@, pos.raw()).update(pos.raw() as int, Some(value)),
    ensures
        h.cell(pos) == Some(value),
        other.raw() != pos.raw() ==> h.cell(other) == g.cell(other),
{
}

/// Once `pos` is removed it holds nothing, and every position with another
/// storage index keeps what it held.
pub proof fn law_get_after_remove<V>(g: Grid<V>, h: Grid<V>, pos: GridPos, other: GridPos)
    requires
        h.values@ == (if pos.raw() < g.values@.len() {
            g.values@.update(pos.raw() as int, None)
        } else {
            g.values@
        }),
    ensures
        h.cell(pos) is None,
        other.raw() != pos.raw() ==> h.cell(other) == g.cell(other),
{
}

/// Positions whose `y` is below 1024 have distinct storage indices.
pub proof fn law_raw_distinct(a: GridPos, b: GridPos)
    requires
        a.y < 1024,
        b.y < 1024,
        a.x != b.x || a.y != b.y,
    ensures
        a.raw() != b.raw(),
{
}

} // verus!
