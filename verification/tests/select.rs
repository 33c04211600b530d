use lucie::select::{Affinity, Cursor, Selection};

#[test]
fn cursor_accessors() {
    let c = Cursor::new(7, Affinity::Upstream);
    assert_eq!(c.index(), 7);
    assert_eq!(c.affinity(), Affinity::Upstream);
    assert_eq!(Affinity::default(), Affinity::Downstream);
    assert_eq!(Cursor::default(), Cursor::new(0, Affinity::Downstream));
    assert!(Selection::default().is_collapsed());
}

#[test]
fn selection_range_is_ordered() {
    let s = Selection::new(Cursor::new(9, Affinity::Downstream), Cursor::new(3, Affinity::Upstream));
    assert_eq!(s.text_range(), 3..9);
    assert!(!s.is_collapsed());
    assert_eq!(s.anchor().index(), 9);
    assert_eq!(s.focus().index(), 3);
    let forward = Selection::new(Cursor::new(3, Affinity::Downstream), Cursor::new(9, Affinity::Downstream));
    assert_eq!(forward.text_range(), 3..9);
}

#[test]
fn collapse_keeps_focus() {
    let s = Selection::new(Cursor::new(9, Affinity::Downstream), Cursor::new(3, Affinity::Upstream));
    let c = s.collapse();
    assert!(c.is_collapsed());
    assert_eq!(c.anchor(), Cursor::new(3, Affinity::Upstream));
    assert_eq!(c.focus(), Cursor::new(3, Affinity::Upstream));
    assert_eq!(c.text_range(), 3..3);
}

#[test]
fn cursor_selection_is_collapsed() {
    let c = Cursor::new(5, Affinity::Downstream);
    let s = c.to_selection();
    assert!(s.is_collapsed());
    assert_eq!(s.anchor(), c);
}
