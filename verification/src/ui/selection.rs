use vstd::prelude::*;

verus! {

/// The selected objects other than `target`, in order.
pub open spec fn others(selected: Seq<u64>, target: Option<u64>) -> Seq<u64>
    decreases selected.len(),
{
    if selected.len() == 0 {
        Seq::empty()
    } else {
        let rest = others(selected.drop_last(), target);
        if target == Some(selected.last()) {
            rest
        } else {
            rest.push(selected.last())
        }
    }
}

proof fn lemma_push_contains(s: Seq<u64>, v: u64, x: u64)
    ensures
        s.push(v).contains(x) <==> (s.contains(x) || v == x),
{
    if s.push(v).contains(x) {
        let k = choose|k: int| 0 <= k < s.push(v).len() && s.push(v)[k] == x;
        if k < s.len() {
            assert(s[k] == x);
        }
    }
    if s.contains(x) {
        let k = choose|k: int| 0 <= k < s.len() && s[k] == x;
        assert(s.push(v)[k] == x);
    }
    if v == x {
        assert(s.push(v)[s.len() as int] == x);
    }
}

/// What a click on an object does to the selection: the object to select,
/// if any, and the objects to deselect, in order. `target` is the object
/// that the clicked one selects (none for an object that cannot be
/// selected), `selected` the objects selected so far.
pub open spec fn click_change(target: Option<u64>, shift: bool, selected: Seq<u64>) -> (Option<u64>, Seq<u64>) {
    let select = match target {
        Some(t) => if selected.contains(t) { None } else { Some(t) },
        None => None,
    };
    let toggled_off = match target {
        Some(t) => if selected.contains(t) && shift { seq![t] } else { Seq::empty() },
        None => Seq::empty(),
    };
    let cleared = if shift { Seq::empty() } else { others(selected, target) };
    (select, toggled_off + cleared)
}

/// The change that a click makes to the selection: a plain click selects
/// the clicked object alone, a shift-click adds it or, when it is already
/// selected, removes it.
pub fn click_selection(target: Option<u64>, shift: bool, selected: &Vec<u64>) -> (r: (Option<u64>, Vec<u64>))
    ensures
        r.0 == click_change(target, shift, selected@).0,
        r.1@ == click_change(target, shift, selected@).1,
{
    let mut sel_ent: Option<u64> = None;
    let mut to_select: Option<u64> = None;
    let mut to_deselect: Vec<u64> = Vec::new();
    if let Some(t) = target {
        sel_ent = Some(t);
        let mut found = false;
        let mut j: usize = 0;
        while j < selected.len()
            invariant
                j <= selected@.len(),
                found == selected@.subrange(0, j as int).contains(t),
            decreases selected@.len() - j,
        {
            assert(selected@.subrange(0, j + 1) =~= selected@.subrange(0, j as int).push(selected@[j as int]));
            proof {
                lemma_push_contains(selected@.subrange(0, j as int), selected@[j as int], t);
            }
            if selected[j] == t {
                found = true;
            }
            j = j + 1;
        }
        assert(selected@.subrange(0, selected@.len() as int) =~= selected@);
        if !found {
            to_select = Some(t);
        } else if shift {
            to_deselect.push(t);
        }
    }
    let ghost head = to_deselect@;
    if !shift {
        let mut i: usize = 0;
        while i < selected.len()
            invariant
                i <= selected@.len(),
                sel_ent == target,
                to_deselect@ == head + others(selected@.subrange(0, i as int), target),
            decreases selected@.len() - i,
        {
            let s = selected[i];
            let remove = match sel_ent {
                Some(e) => e != s,
                None => true,
            };
            proof {
                let pre = selected@.subrange(0, i + 1);
                assert(pre.drop_last() =~= selected@.subrange(0, i as int));
                assert(pre.last() == s);
            }
            if remove {
                to_deselect.push(s);
            }
            assert(to_deselect@ =~= head + others(selected@.subrange(0, i + 1), target));
            i = i + 1;
        }
        assert(selected@.subrange(0, selected@.len() as int) =~= selected@);
    }
    assert(to_deselect@ =~= click_change(target, shift, selected@).1);
    (to_select, to_deselect)
}

proof fn lemma_others(selected: Seq<u64>, target: Option<u64>, x: u64)
    ensures
        others(selected, target).contains(x) <==> (selected.contains(x) && target != Some(x)),
    decreases selected.len(),
{
    if selected.len() > 0 {
        lemma_others(selected.drop_last(), target, x);
        assert(selected =~= selected.drop_last().push(selected.last()));
        lemma_push_contains(selected.drop_last(), selected.last(), x);
        lemma_push_contains(others(selected.drop_last(), target), selected.last(), x);
    }
}

/// The selection after a change: what was selected or is selected now, less
/// what is deselected.
pub open spec fn selected_after(selected: Seq<u64>, change: (Option<u64>, Seq<u64>), x: u64) -> bool {
    (selected.contains(x) || change.0 == Some(x)) && !change.1.contains(x)
}

/// A plain click leaves exactly the clicked object selected (nothing, for an
/// object that cannot be selected); a shift-click flips the clicked object
/// and leaves every other object as it was.
pub proof fn law_click_selection(target: Option<u64>, shift: bool, selected: Seq<u64>, x: u64)
    ensures
        !shift ==> (selected_after(selected, click_change(target, false, selected), x) <==> target == Some(x)),
        shift && target == Some(x) ==> (selected_after(selected, click_change(target, true, selected), x)
            <==> !selected.contains(x)),
        shift && target != Some(x) ==> (selected_after(selected, click_change(target, true, selected), x)
            <==> selected.contains(x)),
{
    lemma_others(selected, target, x);
    let c = click_change(target, shift, selected);
    let toggled_off: Seq<u64> = match target {
        Some(t) => if selected.contains(t) && shift { seq![t] } else { Seq::empty() },
        None => Seq::empty(),
    };
    let cleared: Seq<u64> = if shift { Seq::empty() } else { others(selected, target) };
    assert(c.1 == toggled_off + cleared);
    assert(c.1.contains(x) <==> (toggled_off.contains(x) || cleared.contains(x))) by {
        if c.1.contains(x) {
            let k = choose|k: int| 0 <= k < c.1.len() && c.1[k] == x;
            if k < toggled_off.len() {
                assert(toggled_off[k] == x);
            } else {
                assert(cleared[k - toggled_off.len()] == x);
            }
        }
        if toggled_off.contains(x) {
            let k = choose|k: int| 0 <= k < toggled_off.len() && toggled_off[k] == x;
            assert(c.1[k] == x);
        }
        if cleared.contains(x) {
            let k = choose|k: int| 0 <= k < cleared.len() && cleared[k] == x;
            assert(c.1[k + toggled_off.len()] == x);
        }
    }
    if let Some(t) = target {
        if toggled_off.len() > 0 {
            assert(toggled_off[0] == t);
            assert(toggled_off.contains(x) <==> t == x);
        }
    }
}

/// What a finished selection rectangle does to one object.
#[derive(Debug, Copy, Clone, PartialEq, Eq, Structural)]
pub enum RectChange {
    Keep,
    Select,
    Deselect,
}

/// An object inside the rectangle is selected; outside it, it is deselected
/// unless shift is held.
pub fn rect_selection(inside: bool, shift: bool, is_selected: bool) -> (r: RectChange)
    ensures
        r == (if inside {
            if is_selected { RectChange::Keep } else { RectChange::Select }
        } else if !shift && is_selected {
            RectChange::Deselect
        } else {
            RectChange::Keep
        }),
{
    if inside {
        if !is_selected {
            RectChange::Select
        } else {
            RectChange::Keep
        }
    } else if !shift {
        if is_selected {
            RectChange::Deselect
        } else {
            RectChange::Keep
        }
    } else {
        RectChange::Keep
    }
}

} // verus!
