//! Text cursors and selections, as byte positions in a laid-out text.

use vstd::prelude::*;
use std::ops::Range;

verus! {

/// Which side of a position a cursor leans to, where the two sides may be
/// drawn apart (at a line wrap or a change of direction).
#[derive(Debug, Clone, Copy, PartialEq, Eq, Hash, Structural)]
pub enum Affinity {
    Downstream,
    Upstream,
}

impl Default for Affinity {
    fn default() -> (a: Self)
        ensures
            a == Affinity::Downstream,
    {
        Affinity::Downstream
    }
}

/// A cursor: a byte index into the text and its affinity.
#[derive(Copy, Clone, PartialEq, Eq, Debug, Structural)]
pub struct Cursor {
    index: usize,
    affinity: Affinity,
}

impl Default for Cursor {
    fn default() -> (c: Self)
        ensures
            c.spec_index() == 0,
            c.spec_affinity() == Affinity::Downstream,
    {
        Cursor { index: 0, affinity: Affinity::Downstream }
    }
}

impl Cursor {
    /// The byte index of the cursor.
    pub closed spec fn spec_index(&self) -> usize {
        self.index
    }

    /// The affinity of the cursor.
    pub closed spec fn spec_affinity(&self) -> Affinity {
        self.affinity
    }

    /// A cursor at byte `index` with the given affinity.
    pub fn new(index: usize, affinity: Affinity) -> (c: Self)
        ensures
            c.spec_index() == index,
            c.spec_affinity() == affinity,
    {
        Cursor { index, affinity }
    }

    /// The byte index of the cursor.
    pub fn index(&self) -> (i: usize)
        ensures
            i == self.spec_index(),
    {
        self.index
    }

    /// The affinity of the cursor.
    pub fn affinity(&self) -> (a: Affinity)
        ensures
            a == self.spec_affinity(),
    {
        self.affinity
    }

    /// The empty selection at this cursor.
    pub fn to_selection(&self) -> (s: Selection)
        ensures
            s.spec_anchor() == *self,
            s.spec_focus() == *self,
    {
        Selection::new(*self, *self)
    }
}

/// A selection: the cursor where it was started (the anchor) and the one
/// that moves (the focus).
#[derive(Debug, Copy, Clone)]
pub struct Selection {
    anchor: Cursor,
    focus: Cursor,
}

impl Default for Selection {
    fn default() -> (s: Self)
        ensures
            s.spec_anchor().spec_index() == 0,
            s.spec_anchor().spec_affinity() == Affinity::Downstream,
            s.spec_focus() == s.spec_anchor(),
    {
        let c = Cursor { index: 0, affinity: Affinity::Downstream };
        Selection { anchor: c, focus: c }
    }
}

impl Selection {
    /// The anchor of the selection.
    pub closed spec fn spec_anchor(&self) -> Cursor {
        self.anchor
    }

    /// The focus of the selection.
    pub closed spec fn spec_focus(&self) -> Cursor {
        self.focus
    }

    /// The selection from `anchor` to `focus`.
    pub fn new(anchor: Cursor, focus: Cursor) -> (s: Self)
        ensures
            s.spec_anchor() == anchor,
            s.spec_focus() == focus,
    {
        Selection { anchor, focus }
    }

    /// Whether the selection is empty: anchor and focus at the same index.
    pub fn is_collapsed(&self) -> (c: bool)
        ensures
            c == (self.spec_anchor().spec_index() == self.spec_focus().spec_index()),
    {
        self.anchor.index == self.focus.index
    }

    /// The anchor of the selection.
    pub fn anchor(&self) -> (c: Cursor)
        ensures
            c == self.spec_anchor(),
    {
        self.anchor
    }

    /// The focus of the selection.
    pub fn focus(&self) -> (c: Cursor)
        ensures
            c == self.spec_focus(),
    {
        self.focus
    }

    /// The empty selection at the focus.
    pub fn collapse(&self) -> (s: Selection)
        ensures
            s.spec_anchor() == self.spec_focus(),
            s.spec_focus() == self.spec_focus(),
    {
        self.focus.to_selection()
    }

    /// The selected bytes, from the smaller of the two indices to the larger.
    pub fn text_range(&self) -> (r: Range<usize>)
        ensures
            r.start == if self.spec_anchor().spec_index() <= self.spec_focus().spec_index() {
                self.spec_anchor().spec_index()
            } else {
                self.spec_focus().spec_index()
            },
            r.end == if self.spec_anchor().spec_index() <= self.spec_focus().spec_index() {
                self.spec_focus().spec_index()
            } else {
                self.spec_anchor().spec_index()
            },
    {
        let a = self.anchor.index;
        let f = self.focus.index;
        let start = if a <= f { a } else { f };
        let end = if f >= a { f } else { a };
        start..end
    }
}

/// The selected range of any selection is well ordered, and it is empty
/// exactly when the selection is collapsed.
pub proof fn lemma_text_range_ordered(s: Selection, r: Range<usize>)
    requires
        r.start == if s.spec_anchor().spec_index() <= s.spec_focus().spec_index() {
            s.spec_anchor().spec_index()
        } else {
            s.spec_focus().spec_index()
        },
        r.end == if s.spec_anchor().spec_index() <= s.spec_focus().spec_index() {
            s.spec_focus().spec_index()
        } else {
            s.spec_anchor().spec_index()
        },
    ensures
        r.start <= r.end,
        (r.start == r.end) == (s.spec_anchor().spec_index() == s.spec_focus().spec_index()),
{
}

/// Collapsing a selection gives a collapsed selection at the old focus, and
/// collapsing it again changes nothing.
pub proof fn lemma_collapse_idempotent(s: Selection, c: Selection, cc: Selection)
    requires
        c.spec_anchor() == s.spec_focus(),
        c.spec_focus() == s.spec_focus(),
        cc.spec_anchor() == c.spec_focus(),
        cc.spec_focus() == c.spec_focus(),
    ensures
        c.spec_anchor().spec_index() == c.spec_focus().spec_index(),
        cc.spec_anchor() == c.spec_anchor(),
        cc.spec_focus() == c.spec_focus(),
{
}

} // verus!
