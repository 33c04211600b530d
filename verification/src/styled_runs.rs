//! How a piece of text is cut into styled runs: the runs that highlight
//! ranges produce, and the check that a list of run lengths tiles the text.

use vstd::prelude::*;
use vstd::utf8::*;
use vstd::string::StringSliceAdditionalSpecFns;
use std::ops::Range;

verus! {

broadcast use vstd::std_specs::range::group_range_axioms;

/// One run of text: `len` UTF-8 bytes styled with the default style
/// (`highlight == None`) or with the highlight at that index.
#[derive(Clone, Copy, Debug, PartialEq, Eq, Structural)]
pub struct RunSpan {
    pub len: usize,
    pub highlight: Option<usize>,
}

/// The number of indices a range yields (zero when `end <= start`).
pub open spec fn range_len(r: Range<usize>) -> int {
    if r.start < r.end {
        r.end - r.start
    } else {
        0
    }
}

/// Where the text stands after the first `n` highlights: the end of the
/// `n`-th highlight, or the start of the text.
pub open spec fn boundary_before(hs: Seq<Range<usize>>, n: int) -> int {
    if n <= 0 {
        0
    } else {
        hs[n - 1].end as int
    }
}

/// The runs one highlight adds when the text so far ends at `ix`: a default
/// run for any gap before it, then the highlighted run itself.
pub open spec fn runs_for_highlight(ix: int, r: Range<usize>, i: int) -> Seq<RunSpan> {
    let own = RunSpan { len: range_len(r) as usize, highlight: Some(i as usize) };
    if ix < r.start {
        seq![RunSpan { len: (r.start - ix) as usize, highlight: None }, own]
    } else {
        seq![own]
    }
}

/// The runs produced by the first `n` highlights.
pub open spec fn highlight_runs(hs: Seq<Range<usize>>, n: nat) -> Seq<RunSpan>
    decreases n,
{
    if n == 0 {
        Seq::empty()
    } else {
        highlight_runs(hs, (n - 1) as nat) + runs_for_highlight(
            boundary_before(hs, n - 1),
            hs[n - 1],
            n - 1,
        )
    }
}

/// All runs of a text of `text_len` bytes with the given highlights: the
/// highlight runs, then a default run for what is left after the last one.
pub open spec fn spec_compute_runs(text_len: int, hs: Seq<Range<usize>>) -> Seq<RunSpan> {
    let ix = boundary_before(hs, hs.len() as int);
    highlight_runs(hs, hs.len()) + if ix < text_len {
        seq![RunSpan { len: (text_len - ix) as usize, highlight: None }]
    } else {
        Seq::empty()
    }
}

/// The boundaries that the text must have for the highlights to be cut out
/// of it: every highlight ends on a character boundary, and one that leaves
/// a gap before it also starts on one.
pub open spec fn highlights_on_boundaries(bytes: Seq<u8>, hs: Seq<Range<usize>>) -> bool {
    forall|i: int|
        0 <= i < hs.len() ==> {
            &&& is_char_boundary(bytes, #[trigger] hs[i].end as int)
            &&& boundary_before(hs, i) < hs[i].start ==> is_char_boundary(bytes, hs[i].start as int)
        }
}

/// Cuts `text` into runs: default-styled runs for the gaps between the
/// highlights, one run per highlight, and a default run for the tail.
pub fn compute_runs(text: &str, highlights: &Vec<Range<usize>>) -> (runs: Vec<RunSpan>)
    ensures
        runs@ == spec_compute_runs(text.spec_bytes().len() as int, highlights@),
{
    let mut runs: Vec<RunSpan> = Vec::new();
    let mut ix: usize = 0;
    let n = highlights.len();
    let mut i: usize = 0;
    while i < n
        invariant
            n == highlights@.len(),
            0 <= i <= n,
            ix as int == boundary_before(highlights@, i as int),
            runs@ == highlight_runs(highlights@, i as nat),
        decreases n - i,
    {
        let range = &highlights[i];
        let old_runs = Ghost(runs@);
        if ix < range.start {
            runs.push(RunSpan { len: range.start - ix, highlight: None });
        }
        let len: usize = if range.start < range.end { range.end - range.start } else { 0 };
        runs.push(RunSpan { len, highlight: Some(i) });
        ix = range.end;
        proof {
            assert(runs@ =~= old_runs@ + runs_for_highlight(
                boundary_before(highlights@, i as int),
                highlights@[i as int],
                i as int,
            ));
        }
        i = i + 1;
    }
    let text_len = text.as_bytes().len();
    let ghost before_tail = runs@;
    if ix < text_len {
        runs.push(RunSpan { len: text_len - ix, highlight: None });
    }
    proof {
        let tail = if (ix as int) < text_len as int {
            seq![RunSpan { len: (text_len - ix) as usize, highlight: None }]
        } else {
            Seq::<RunSpan>::empty()
        };
        assert(runs@ =~= before_tail + tail);
    }
    runs
}

/// The sum of the first `k` run lengths.
pub open spec fn prefix_sum(lens: Seq<usize>, k: int) -> int
    decreases k,
{
    if k <= 0 {
        0
    } else {
        prefix_sum(lens, k - 1) + lens[k - 1]
    }
}

/// The lengths of a sequence of runs.
pub open spec fn lens_of(runs: Seq<RunSpan>) -> Seq<usize> {
    runs.map_values(|r: RunSpan| r.len)
}

/// Runs of the given lengths tile the text: every run ends on a character
/// boundary, and together they cover the text exactly.
pub open spec fn spec_runs_cover(bytes: Seq<u8>, lens: Seq<usize>) -> bool {
    &&& prefix_sum(lens, lens.len() as int) == bytes.len()
    &&& forall|k: int| 0 <= k <= lens.len() ==> is_char_boundary(bytes, #[trigger] prefix_sum(lens, k))
}

/// Whether runs of the given byte lengths can style `text`: each run must end
/// on a character boundary and the runs must add up to the whole text.
pub fn runs_cover_text(text: &str, run_lens: &Vec<usize>) -> (ok: bool)
    ensures
        ok == spec_runs_cover(text.spec_bytes(), run_lens@),
{
    let bytes_len = text.as_bytes().len();
    let ghost bytes = text.spec_bytes();
    proof {
        encode_utf8_valid_utf8(text@);
        is_char_boundary_start_end_of_seq(bytes);
    }
    let n = run_lens.len();
    let mut sum: usize = 0;
    let mut i: usize = 0;
    while i < n
        invariant
            n == run_lens@.len(),
            bytes_len == bytes.len(),
            bytes == text.spec_bytes(),
            valid_utf8(bytes),
            0 <= i <= n,
            sum as int == prefix_sum(run_lens@, i as int),
            sum <= bytes_len,
            forall|k: int| 0 <= k <= i ==> is_char_boundary(bytes, #[trigger] prefix_sum(run_lens@, k)),
        decreases n - i,
    {
        let len = run_lens[i];
        if len > bytes_len - sum {
            proof {
                assert(!is_char_boundary(bytes, prefix_sum(run_lens@, i + 1)));
            }
            return false;
        }
        sum = sum + len;
        if !text.is_char_boundary(sum) {
            proof {
                assert(prefix_sum(run_lens@, i + 1) == sum);
            }
            return false;
        }
        i = i + 1;
    }
    sum == bytes_len
}

/// Highlights are in text order and do not overlap: each starts no earlier
/// than the previous one ended, and none ends before it starts.
pub open spec fn highlights_ordered(hs: Seq<Range<usize>>) -> bool {
    forall|i: int|
        0 <= i < hs.len() ==> boundary_before(hs, i) <= #[trigger] hs[i].start <= hs[i].end
}

proof fn lemma_prefix_sum_of_concat(s: Seq<usize>, t: Seq<usize>, k: int)
    requires
        0 <= k <= s.len(),
    ensures
        prefix_sum(s + t, k) == prefix_sum(s, k),
    decreases k,
{
    if k > 0 {
        lemma_prefix_sum_of_concat(s, t, k - 1);
        assert((s + t)[k - 1] == s[k - 1]);
    }
}

proof fn lemma_highlight_runs_tile(bytes: Seq<u8>, hs: Seq<Range<usize>>, n: nat)
    requires
        n <= hs.len(),
        valid_utf8(bytes),
        highlights_on_boundaries(bytes, hs),
        highlights_ordered(hs),
    ensures
        prefix_sum(lens_of(highlight_runs(hs, n)), highlight_runs(hs, n).len() as int)
            == boundary_before(hs, n as int),
        forall|k: int|
            0 <= k <= highlight_runs(hs, n).len() ==> is_char_boundary(
                bytes,
                #[trigger] prefix_sum(lens_of(highlight_runs(hs, n)), k),
            ),
    decreases n,
{
    is_char_boundary_start_end_of_seq(bytes);
    if n > 0 {
        let m = (n - 1) as nat;
        lemma_highlight_runs_tile(bytes, hs, m);
        let prev = highlight_runs(hs, m);
        let ix = boundary_before(hs, m as int);
        let r = hs[m as int];
        let step = runs_for_highlight(ix, r, m as int);
        let all = highlight_runs(hs, n);
        assert(all == prev + step);
        assert(lens_of(all) =~= lens_of(prev) + lens_of(step));
        let pl = prev.len() as int;
        assert forall|k: int| 0 <= k <= pl implies #[trigger] prefix_sum(lens_of(all), k)
            == prefix_sum(lens_of(prev), k) by {
            lemma_prefix_sum_of_concat(lens_of(prev), lens_of(step), k);
        }
        assert(ix <= r.start <= r.end);
        if m > 0 {
            assert(is_char_boundary(bytes, hs[m - 1].end as int));
        }
        assert(is_char_boundary(bytes, ix));
        assert(is_char_boundary(bytes, r.end as int));
        assert(prefix_sum(lens_of(all), pl) == ix);
        assert(lens_of(all)[pl] == step[0].len);
        if ix < r.start {
            assert(lens_of(all)[pl + 1] == step[1].len);
            assert(is_char_boundary(bytes, r.start as int));
            assert(prefix_sum(lens_of(all), pl + 1) == r.start);
            assert(prefix_sum(lens_of(all), pl + 2) == r.end);
        } else {
            assert(prefix_sum(lens_of(all), pl + 1) == r.end);
        }
        assert forall|k: int|
            0 <= k <= all.len() implies is_char_boundary(
            bytes,
            #[trigger] prefix_sum(lens_of(all), k),
        ) by {
            if k <= pl {
                assert(prefix_sum(lens_of(all), k) == prefix_sum(lens_of(prev), k));
            }
        }
    }
}

/// Runs cut from in-order, non-overlapping highlights whose edges fall on
/// character boundaries always tile the text, so they are accepted by the
/// run check.
pub proof fn lemma_compute_runs_tile_text(text: &str, highlights: Seq<Range<usize>>)
    requires
        highlights_on_boundaries(text.spec_bytes(), highlights),
        highlights_ordered(highlights),
        text.spec_bytes().len() <= usize::MAX,
    ensures
        spec_runs_cover(
            text.spec_bytes(),
            lens_of(spec_compute_runs(text.spec_bytes().len() as int, highlights)),
        ),
{
    let bytes = text.spec_bytes();
    encode_utf8_valid_utf8(text@);
    is_char_boundary_start_end_of_seq(bytes);
    let n = highlights.len();
    lemma_highlight_runs_tile(bytes, highlights, n);
    let prev = highlight_runs(highlights, n);
    let ix = boundary_before(highlights, n as int);
    let all = spec_compute_runs(bytes.len() as int, highlights);
    let tail = if ix < bytes.len() {
        seq![RunSpan { len: (bytes.len() - ix) as usize, highlight: None }]
    } else {
        Seq::<RunSpan>::empty()
    };
    assert(all == prev + tail);
    assert(lens_of(all) =~= lens_of(prev) + lens_of(tail));
    let pl = prev.len() as int;
    assert forall|k: int| 0 <= k <= pl implies #[trigger] prefix_sum(lens_of(all), k)
        == prefix_sum(lens_of(prev), k) by {
        lemma_prefix_sum_of_concat(lens_of(prev), lens_of(tail), k);
    }
    if n > 0 {
        assert(is_char_boundary(bytes, highlights[n - 1].end as int));
    }
    assert(ix <= bytes.len());
    assert(prefix_sum(lens_of(all), pl) == ix);
    if ix < bytes.len() {
        assert(lens_of(all)[pl] == tail[0].len);
        assert(prefix_sum(lens_of(all), pl + 1) == bytes.len());
    }
    assert forall|k: int|
        0 <= k <= all.len() implies is_char_boundary(bytes, #[trigger] prefix_sum(lens_of(all), k)) by {
        if k <= pl {
            assert(prefix_sum(lens_of(all), k) == prefix_sum(lens_of(prev), k));
        }
    }
}

/// The byte ranges of runs of the given lengths laid end to end from the
/// start of the text: run `i` covers `prefix_sum(i)..prefix_sum(i + 1)`.
pub fn run_ranges(run_lens: &Vec<usize>) -> (ranges: Vec<Range<usize>>)
    requires
        prefix_sum(run_lens@, run_lens@.len() as int) <= usize::MAX,
    ensures
        ranges@.len() == run_lens@.len(),
        forall|i: int|
            #![trigger ranges@[i]] 0 <= i < ranges@.len() ==> ranges@[i].start == prefix_sum(run_lens@, i)
                && ranges@[i].end == prefix_sum(run_lens@, i + 1),
{
    let mut ranges: Vec<Range<usize>> = Vec::new();
    let n = run_lens.len();
    let mut run_start: usize = 0;
    let mut i: usize = 0;
    while i < n
        invariant
            n == run_lens@.len(),
            0 <= i <= n,
            prefix_sum(run_lens@, n as int) <= usize::MAX,
            run_start as int == prefix_sum(run_lens@, i as int),
            ranges@.len() == i,
            forall|j: int|
                #![trigger ranges@[j]] 0 <= j < i ==> ranges@[j].start == prefix_sum(run_lens@, j)
                    && ranges@[j].end == prefix_sum(run_lens@, j + 1),
        decreases n - i,
    {
        proof {
            lemma_prefix_sum_monotonic(run_lens@, i + 1, n as int);
        }
        let len = run_lens[i];
        ranges.push(run_start..run_start + len);
        run_start = run_start + len;
        i = i + 1;
    }
    ranges
}

proof fn lemma_prefix_sum_monotonic(lens: Seq<usize>, j: int, k: int)
    requires
        0 <= j <= k <= lens.len(),
    ensures
        prefix_sum(lens, j) <= prefix_sum(lens, k),
    decreases k - j,
{
    if j < k {
        lemma_prefix_sum_monotonic(lens, j, k - 1);
    }
}

/// Runs laid end to end leave no gap and no overlap: each run starts where
/// the previous one ends, the first starts at 0 and the last ends at the
/// total length.
pub proof fn lemma_run_ranges_contiguous(lens: Seq<usize>, ranges: Seq<Range<usize>>)
    requires
        ranges.len() == lens.len(),
        forall|i: int|
            #![trigger ranges[i]] 0 <= i < ranges.len() ==> ranges[i].start == prefix_sum(lens, i)
                && ranges[i].end == prefix_sum(lens, i + 1),
    ensures
        ranges.len() > 0 ==> ranges[0].start == 0,
        ranges.len() > 0 ==> ranges[ranges.len() - 1].end == prefix_sum(lens, lens.len() as int),
        forall|i: int| 0 < i < ranges.len() ==> #[trigger] ranges[i].start == ranges[i - 1].end,
        forall|i: int| 0 <= i < ranges.len() ==> ranges[i].end - ranges[i].start == #[trigger] lens[i],
{
    if ranges.len() > 0 {
        assert(ranges[ranges.len() - 1].end == prefix_sum(lens, lens.len() as int));
    }
    assert forall|i: int| 0 < i < ranges.len() implies #[trigger] ranges[i].start == ranges[i - 1].end by {
        assert(ranges[i - 1].end == prefix_sum(lens, i));
    }
}

} // verus!
