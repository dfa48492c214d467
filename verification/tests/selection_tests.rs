use protos::ui::selection::{click_selection, rect_selection, RectChange};

#[test]
fn plain_click_selects_only_the_target() {
    let (sel, desel) = click_selection(Some(5), false, &vec![1, 2]);
    assert_eq!(sel, Some(5));
    assert_eq!(desel, vec![1, 2]);
    let (sel, desel) = click_selection(Some(2), false, &vec![1, 2, 3]);
    assert_eq!(sel, None);
    assert_eq!(desel, vec![1, 3]);
}

#[test]
fn click_on_nothing_selectable_clears() {
    let (sel, desel) = click_selection(None, false, &vec![4, 7]);
    assert_eq!(sel, None);
    assert_eq!(desel, vec![4, 7]);
    let (sel, desel) = click_selection(None, true, &vec![4, 7]);
    assert_eq!(sel, None);
    assert!(desel.is_empty());
}

#[test]
fn shift_click_toggles() {
    let (sel, desel) = click_selection(Some(3), true, &vec![1, 2]);
    assert_eq!(sel, Some(3));
    assert!(desel.is_empty());
    let (sel, desel) = click_selection(Some(2), true, &vec![1, 2]);
    assert_eq!(sel, None);
    assert_eq!(desel, vec![2]);
}

#[test]
fn rectangle_selection() {
    assert_eq!(rect_selection(true, false, false), RectChange::Select);
    assert_eq!(rect_selection(true, true, true), RectChange::Keep);
    assert_eq!(rect_selection(false, false, true), RectChange::Deselect);
    assert_eq!(rect_selection(false, true, true), RectChange::Keep);
    assert_eq!(rect_selection(false, false, false), RectChange::Keep);
}
