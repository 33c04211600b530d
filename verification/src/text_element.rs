//! The text element's layout record (the measured text and where its lines
//! wrap) and the index logic behind clickable and hoverable text.

use vstd::prelude::*;
use vstd::utf8::*;
use vstd::string::*;
use std::ops::Range;

verus! {

broadcast use vstd::std_specs::range::group_range_axioms;

/// Std's byte-range slicing of a string (`&s[start..end]`): the substring
/// whose UTF-8 bytes are the bytes of `s` from `start` to `end`. Std panics
/// unless both ends are character boundaries with `start <= end`, so the
/// contract requires that.
#[verifier::external_body]
fn str_slice(s: &str, start: usize, end: usize) -> (piece: &str)
    requires
        start <= end,
        is_char_boundary(s.spec_bytes(), start as int),
        is_char_boundary(s.spec_bytes(), end as int),
    ensures
        piece.spec_bytes() == s.spec_bytes().subrange(start as int, end as int),
{
    &s[start..end]
}

/// What a measurement recorded: the text that was laid out and the byte
/// range of each line it was wrapped into.
struct TextLayoutInner {
    text: String,
    line_ranges: Vec<Range<usize>>,
}

/// The layout of a text element. It is empty until the element has been
/// measured; afterwards it maps the text to its wrapped lines.
pub struct TextLayout {
    inner: Option<TextLayoutInner>,
}

/// The text of one line: the characters whose UTF-8 bytes lie in `r`.
pub open spec fn line_text(text: Seq<char>, r: Range<usize>) -> Seq<char> {
    decode_utf8(encode_utf8(text).subrange(r.start as int, r.end as int))
}

/// The texts of all lines.
pub open spec fn line_texts(text: Seq<char>, lines: Seq<Range<usize>>) -> Seq<Seq<char>> {
    lines.map_values(|r: Range<usize>| line_text(text, r))
}

/// The given pieces separated by newlines.
pub open spec fn join_lines(pieces: Seq<Seq<char>>) -> Seq<char>
    decreases pieces.len(),
{
    if pieces.len() == 0 {
        Seq::empty()
    } else if pieces.len() == 1 {
        pieces[0]
    } else {
        join_lines(pieces.drop_last()) + seq!['\n'] + pieces.last()
    }
}

/// A line range that can be cut out of the text.
pub open spec fn line_range_valid(text: Seq<char>, r: Range<usize>) -> bool {
    &&& r.start <= r.end
    &&& is_char_boundary(encode_utf8(text), r.start as int)
    &&& is_char_boundary(encode_utf8(text), r.end as int)
}

impl Default for TextLayout {
    /// A layout that has not been measured yet.
    fn default() -> (layout: Self)
        ensures
            !layout.is_measured(),
    {
        TextLayout { inner: None }
    }
}

impl TextLayout {
    /// Whether the element has been measured.
    pub closed spec fn is_measured(&self) -> bool {
        self.inner is Some
    }

    /// The measured text.
    pub closed spec fn spec_text(&self) -> Seq<char> {
        self.inner->0.text@
    }

    /// The byte ranges of the measured lines.
    pub closed spec fn spec_lines(&self) -> Seq<Range<usize>> {
        self.inner->0.line_ranges@
    }

    /// Every line range can be cut out of the measured text.
    pub open spec fn lines_valid(&self) -> bool {
        forall|i: int| 0 <= i < self.spec_lines().len() ==> line_range_valid(self.spec_text(), #[trigger] self.spec_lines()[i])
    }

    /// Records the result of measuring `text`: the byte range of every line
    /// it was wrapped into.
    pub fn set_measurement(&mut self, text: String, line_ranges: Vec<Range<usize>>)
        ensures
            final(self).is_measured(),
            final(self).spec_text() == text@,
            final(self).spec_lines() == line_ranges@,
    {
        self.inner = Some(TextLayoutInner { text, line_ranges });
    }

    /// The UTF-8 length of the underlying text.
    pub fn len(&self) -> (n: usize)
        requires
            self.is_measured(),
        ensures
            n == encode_utf8(self.spec_text()).len(),
    {
        let inner = self.inner.as_ref().unwrap();
        inner.text.as_str().as_bytes().len()
    }

    /// The text for this layout.
    pub fn text(&self) -> (t: String)
        requires
            self.is_measured(),
        ensures
            t@ == self.spec_text(),
    {
        let inner = self.inner.as_ref().unwrap();
        inner.text.clone()
    }

    /// The text for this layout, with a newline where each line ends (and
    /// none after the last line).
    pub fn wrapped_text(&self) -> (wrapped: String)
        requires
            self.is_measured(),
            self.lines_valid(),
        ensures
            wrapped@ == join_lines(line_texts(self.spec_text(), self.spec_lines())),
    {
        let inner = self.inner.as_ref().unwrap();
        let text = inner.text.as_str();
        let lines = &inner.line_ranges;
        let ghost pieces = line_texts(inner.text@, lines@);
        let mut acc = String::new();
        let n = lines.len();
        let mut i: usize = 0;
        proof {
            assert forall|j: int| 0 <= j < n implies line_range_valid(inner.text@, #[trigger] lines@[j]) by {
                assert(line_range_valid(self.spec_text(), self.spec_lines()[j]));
            }
            reveal_strlit("\n");
            assert(pieces.take(0) =~= Seq::<Seq<char>>::empty());
        }
        while i < n
            invariant
                n == lines@.len(),
                pieces == line_texts(inner.text@, lines@),
                text@ == inner.text@,
                0 <= i <= n,
                forall|j: int| 0 <= j < n ==> line_range_valid(inner.text@, #[trigger] lines@[j]),
                acc@ == join_lines(pieces.take(i as int)),
                "\n"@ == seq!['\n'],
            decreases n - i,
        {
            let r = &lines[i];
            assert(line_range_valid(inner.text@, lines@[i as int]));
            let piece = str_slice(text, r.start, r.end);
            proof {
                encode_utf8_decode_utf8(piece@);
                assert(piece@ == pieces[i as int]);
                assert(pieces.take(i + 1).drop_last() =~= pieces.take(i as int));
            }
            if i > 0 {
                acc.append("\n");
            } else {
                assert(acc@ =~= Seq::<char>::empty());
            }
            acc.append(piece);
            i = i + 1;
        }
        proof {
            assert(pieces.take(n as int) =~= pieces);
        }
        acc
    }
}

/// Every piece followed by a newline.
pub open spec fn newline_terminated(pieces: Seq<Seq<char>>) -> Seq<Seq<char>> {
    pieces.map_values(|p: Seq<char>| p + seq!['\n'])
}

proof fn lemma_join_lines_alt(pieces: Seq<Seq<char>>)
    requires
        pieces.len() >= 1,
    ensures
        join_lines(pieces) + seq!['\n'] == newline_terminated(pieces).flatten_alt(),
    decreases pieces.len(),
{
    let t = newline_terminated(pieces);
    if pieces.len() == 1 {
        assert(t.drop_last() =~= Seq::<Seq<char>>::empty());
        assert(t.drop_last().flatten_alt() =~= Seq::<char>::empty());
        assert(t.flatten_alt() =~= pieces[0] + seq!['\n']);
    } else {
        lemma_join_lines_alt(pieces.drop_last());
        assert(t.drop_last() =~= newline_terminated(pieces.drop_last()));
        assert(t.last() == pieces.last() + seq!['\n']);
        assert(join_lines(pieces) + seq!['\n'] =~= (join_lines(pieces.drop_last()) + seq!['\n']) + (pieces.last()
            + seq!['\n']));
    }
}

/// The wrapped text holds every line followed by a newline, except that the
/// last line has none: with a newline added at its end it is the
/// concatenation of each line's text and a newline, blank lines included.
pub proof fn lemma_wrapped_text_separates_every_line(pieces: Seq<Seq<char>>)
    requires
        pieces.len() >= 1,
    ensures
        join_lines(pieces) + seq!['\n'] == newline_terminated(pieces).flatten(),
{
    lemma_join_lines_alt(pieces);
    newline_terminated(pieces).lemma_flatten_and_flatten_alt_are_equivalent();
}

/// A text laid out on a single line that holds all of it wraps to itself:
/// no newline is added.
pub proof fn lemma_single_line_wraps_to_text(text: Seq<char>, r: Range<usize>)
    requires
        r.start == 0,
        r.end == encode_utf8(text).len(),
    ensures
        join_lines(line_texts(text, seq![r])) == text,
{
    let bytes = encode_utf8(text);
    assert(bytes.subrange(0, bytes.len() as int) =~= bytes);
    encode_utf8_decode_utf8(text);
    assert(line_texts(text, seq![r]) =~= seq![text]);
}

/// The lines tile the text: the first starts at the beginning, each starts
/// where the previous one ended, and the last ends at the end of the text.
pub open spec fn lines_tile(text: Seq<char>, lines: Seq<Range<usize>>) -> bool {
    &&& lines.len() > 0
    &&& lines[0].start == 0
    &&& lines[lines.len() - 1].end == encode_utf8(text).len()
    &&& forall|i: int| 0 < i < lines.len() ==> #[trigger] lines[i].start == lines[i - 1].end
    &&& forall|i: int| 0 <= i < lines.len() ==> line_range_valid(text, #[trigger] lines[i])
}

proof fn lemma_boundary_in_subrange(b: Seq<u8>, s: int, e: int, i: int)
    requires
        valid_utf8(b),
        is_char_boundary(b, s),
        is_char_boundary(b, e),
        s <= i <= e,
        is_char_boundary(b, i),
    ensures
        valid_utf8(b.subrange(s, e)),
        is_char_boundary(b.subrange(s, e), i - s),
{
    let suffix = b.subrange(s, b.len() as int);
    valid_utf8_split(b, s);
    is_char_boundary_start_end_of_seq(b);
    let sub = b.subrange(s, e);
    // `e` is a boundary of the suffix, so the sub-range is valid UTF-8
    if e < b.len() {
        is_char_boundary_iff_not_is_continuation_byte(b, e);
        assert(suffix[e - s] == b[e]);
        is_char_boundary_iff_not_is_continuation_byte(suffix, e - s);
    } else {
        assert(e - s == suffix.len());
        is_char_boundary_start_end_of_seq(suffix);
    }
    valid_utf8_split(suffix, e - s);
    assert(suffix.subrange(0, e - s) =~= sub);
    is_char_boundary_start_end_of_seq(sub);
    if i < e {
        is_char_boundary_iff_not_is_continuation_byte(b, i);
        assert(sub[i - s] == b[i]);
        is_char_boundary_iff_not_is_continuation_byte(sub, i - s);
    } else {
        assert(i - s == sub.len());
    }
}

proof fn lemma_prefix_lines_decode(text: Seq<char>, lines: Seq<Range<usize>>, k: int)
    requires
        lines_tile(text, lines),
        1 <= k <= lines.len(),
    ensures
        line_texts(text, lines).take(k).flatten_alt() == decode_utf8(
            encode_utf8(text).subrange(0, lines[k - 1].end as int),
        ),
    decreases k,
{
    let b = encode_utf8(text);
    encode_utf8_valid_utf8(text);
    let pieces = line_texts(text, lines);
    let r = lines[k - 1];
    assert(line_range_valid(text, r));
    assert(pieces.take(k).drop_last() =~= pieces.take(k - 1));
    assert(pieces.take(k).last() == line_text(text, r));
    assert(pieces.take(k).flatten_alt() == pieces.take(k - 1).flatten_alt() + line_text(text, r));
    if k == 1 {
        assert(pieces.take(0) =~= Seq::<Seq<char>>::empty());
        assert(r.start == 0);
        assert(pieces.take(0).flatten_alt() == Seq::<char>::empty());
        assert(pieces.take(k).flatten_alt() =~= line_text(text, r));
    } else {
        lemma_prefix_lines_decode(text, lines, k - 1);
        let prev = lines[k - 2];
        assert(line_range_valid(text, prev));
        assert(r.start == prev.end);
        // split the prefix that ends with this line where this line starts
        is_char_boundary_start_end_of_seq(b);
        lemma_boundary_in_subrange(b, 0, r.end as int, r.start as int);
        let prefix = b.subrange(0, r.end as int);
        decode_utf8_split(prefix, r.start as int);
        assert(prefix.subrange(0, r.start as int) =~= b.subrange(0, r.start as int));
        assert(prefix.subrange(r.start as int, prefix.len() as int) =~= b.subrange(
            r.start as int,
            r.end as int,
        ));
        assert(pieces.take(k - 1).flatten_alt() == decode_utf8(b.subrange(0, r.start as int)));
    }
}

/// The lines of a text that they tile hold the whole text: put back
/// together, the line texts are the text again (so the wrapped text is the
/// text with a newline put between consecutive lines).
pub proof fn lemma_tiling_lines_rebuild_text(text: Seq<char>, lines: Seq<Range<usize>>)
    requires
        lines_tile(text, lines),
    ensures
        line_texts(text, lines).flatten() == text,
{
    let b = encode_utf8(text);
    lemma_prefix_lines_decode(text, lines, lines.len() as int);
    let pieces = line_texts(text, lines);
    assert(pieces.take(lines.len() as int) =~= pieces);
    assert(b.subrange(0, b.len() as int) =~= b);
    encode_utf8_decode_utf8(text);
    pieces.lemma_flatten_and_flatten_alt_are_equivalent();
}

/// The state an interactive text keeps between frames: where the mouse went
/// down, and which character it hovers.
pub struct InteractiveTextState {
    pub mouse_down_index: Option<usize>,
    pub hovered_index: Option<usize>,
}

impl Default for InteractiveTextState {
    /// No press and no hover.
    fn default() -> (state: Self)
        ensures
            state.mouse_down_index is None,
            state.hovered_index is None,
    {
        InteractiveTextState { mouse_down_index: None, hovered_index: None }
    }
}

/// What a mouse release over an interactive text leads to.
#[derive(Clone, Copy, Debug)]
pub struct MouseUpOutcome {
    /// The click handed to the click listener, as the character indices
    /// where the mouse went down and where it came up.
    pub click: Option<(usize, usize)>,
    /// Whether the window is redrawn.
    pub refresh: bool,
}

impl InteractiveTextState {
    /// A mouse press in the bubble phase of a clickable text: `over_text`
    /// when it happened over the text's hitbox, `index` the character under
    /// it (if any). Only a press while none is pending counts: a press over
    /// a character is then remembered and the window redrawn.
    pub fn mouse_down(&mut self, over_text: bool, index: Option<usize>) -> (refresh: bool)
        ensures
            refresh == (old(self).mouse_down_index is None && over_text && index is Some),
            final(self).mouse_down_index == (if refresh {
                index
            } else {
                old(self).mouse_down_index
            }),
            final(self).hovered_index == old(self).hovered_index,
    {
        if self.mouse_down_index.is_none() && over_text && index.is_some() {
            self.mouse_down_index = index;
            true
        } else {
            false
        }
    }

    /// A mouse release in the bubble phase of a clickable text: `over_text`
    /// when it happened over the text's hitbox, `index` the character under
    /// it (if any). Only a release while a press is pending counts: over the
    /// text it makes a click if it is over a character, and the press is
    /// forgotten and the window redrawn either way.
    pub fn mouse_up(&mut self, over_text: bool, index: Option<usize>) -> (outcome: MouseUpOutcome)
        ensures
            outcome.refresh == (old(self).mouse_down_index is Some && over_text),
            outcome.click == (if outcome.refresh && index is Some {
                Some((old(self).mouse_down_index->0, index->0))
            } else {
                None
            }),
            final(self).mouse_down_index == (if outcome.refresh {
                None
            } else {
                old(self).mouse_down_index
            }),
            final(self).hovered_index == old(self).hovered_index,
    {
        if !over_text || self.mouse_down_index.is_none() {
            return MouseUpOutcome { click: None, refresh: false };
        }
        let down = self.mouse_down_index.unwrap();
        let click = match index {
            Some(up) => Some((down, up)),
            None => None,
        };
        self.mouse_down_index = None;
        MouseUpOutcome { click, refresh: true }
    }

    /// A mouse move: `over_text` when it happened over the text's hitbox,
    /// `index` the character now under it (if any). The character hovered
    /// becomes `index` over the text and none once the mouse has left it;
    /// when that changes it is recorded, and the hover listener (with the
    /// new value) and the view are notified (the result).
    pub fn mouse_move(&mut self, over_text: bool, index: Option<usize>) -> (changed: bool)
        ensures
            ({
                let now = if over_text {
                    index
                } else {
                    None
                };
                &&& changed == (old(self).hovered_index != now)
                &&& final(self).hovered_index == now
            }),
            final(self).mouse_down_index == old(self).mouse_down_index,
    {
        let now = if over_text {
            index
        } else {
            None
        };
        if self.hovered_index != now {
            self.hovered_index = now;
            true
        } else {
            false
        }
    }
}

/// Whether `ix` lies in the half-open range `r`.
pub open spec fn in_range(r: Range<usize>, ix: usize) -> bool {
    r.start <= ix < r.end
}

/// A click on clickable range `i` is one that went down and up inside it.
pub open spec fn click_hits(ranges: Seq<Range<usize>>, i: int, down: usize, up: usize) -> bool {
    in_range(ranges[i], down) && in_range(ranges[i], up)
}

/// The indices of the clickable ranges that contain both the character where
/// the mouse went down and the one where it came up, in increasing order:
/// the ranges whose listener a click fires.
pub fn clicked_ranges(ranges: &Vec<Range<usize>>, mouse_down_index: usize, mouse_up_index: usize) -> (hits: Vec<usize>)
    ensures
        forall|j: int| 0 <= j < hits@.len() ==> #[trigger] hits@[j] < ranges@.len() && click_hits(ranges@, hits@[j] as int, mouse_down_index, mouse_up_index),
        forall|j: int, k: int| 0 <= j < k < hits@.len() ==> hits@[j] < hits@[k],
        forall|i: int| 0 <= i < ranges@.len() && click_hits(ranges@, i, mouse_down_index, mouse_up_index) ==> hits@.contains(i as usize),
{
    let mut hits: Vec<usize> = Vec::new();
    let n = ranges.len();
    let mut i: usize = 0;
    while i < n
        invariant
            n == ranges@.len(),
            0 <= i <= n,
            forall|j: int| 0 <= j < hits@.len() ==> #[trigger] hits@[j] < i && click_hits(ranges@, hits@[j] as int, mouse_down_index, mouse_up_index),
            forall|j: int, k: int| 0 <= j < k < hits@.len() ==> hits@[j] < hits@[k],
            forall|m: int| 0 <= m < i && click_hits(ranges@, m, mouse_down_index, mouse_up_index) ==> hits@.contains(m as usize),
        decreases n - i,
    {
        let r = &ranges[i];
        if r.start <= mouse_down_index && mouse_down_index < r.end && r.start <= mouse_up_index && mouse_up_index < r.end {
            let ghost before = hits@;
            hits.push(i);
            proof {
                assert forall|m: int| 0 <= m < i + 1 && click_hits(ranges@, m, mouse_down_index, mouse_up_index) implies hits@.contains(m as usize) by {
                    if m < i {
                        let w = choose|w: int| 0 <= w < before.len() && before[w] == m as usize;
                        assert(hits@[w] == m as usize);
                    } else {
                        assert(hits@[hits@.len() - 1] == m as usize);
                    }
                }
            }
        }
        i = i + 1;
    }
    hits
}

/// Whether the character at `ix` lies in one of the clickable ranges (the
/// pointer then shows a pointing hand).
pub fn index_is_clickable(ranges: &Vec<Range<usize>>, ix: usize) -> (clickable: bool)
    ensures
        clickable == exists|i: int| 0 <= i < ranges@.len() && in_range(#[trigger] ranges@[i], ix),
{
    let n = ranges.len();
    let mut i: usize = 0;
    while i < n
        invariant
            n == ranges@.len(),
            0 <= i <= n,
            forall|m: int| 0 <= m < i ==> !in_range(#[trigger] ranges@[m], ix),
        decreases n - i,
    {
        let r = &ranges[i];
        if r.start <= ix && ix < r.end {
            assert(in_range(ranges@[i as int], ix));
            return true;
        }
        i = i + 1;
    }
    false
}

} // verus!
