use lucie::styled_runs::{compute_runs, run_ranges, runs_cover_text, RunSpan};

fn span(len: usize, highlight: Option<usize>) -> RunSpan {
    RunSpan { len, highlight }
}

#[test]
fn runs_fill_gaps_and_tail() {
    let text = "hello world, friend";
    let runs = compute_runs(text, &vec![2..5, 6..11]);
    assert_eq!(runs, vec![span(2, None), span(3, Some(0)), span(1, None), span(5, Some(1)), span(8, None)]);
    let lens: Vec<usize> = runs.iter().map(|r| r.len).collect();
    assert!(runs_cover_text(text, &lens));
}

#[test]
fn runs_without_highlights_cover_whole_text() {
    assert_eq!(compute_runs("abc", &vec![]), vec![span(3, None)]);
    assert_eq!(compute_runs("", &vec![]), vec![]);
}

#[test]
fn runs_adjacent_highlights_leave_no_gap() {
    let runs = compute_runs("abcdef", &vec![0..3, 3..6]);
    assert_eq!(runs, vec![span(3, Some(0)), span(3, Some(1))]);
}

#[test]
fn runs_overlapping_highlight_is_kept_whole() {
    let runs = compute_runs("abcdefgh", &vec![0..4, 2..6]);
    assert_eq!(runs, vec![span(4, Some(0)), span(4, Some(1)), span(2, None)]);
}

#[test]
fn runs_must_tile_text() {
    assert!(runs_cover_text("héllo", &vec![1, 2, 3]));
    // 2 ends inside the two-byte `é`
    assert!(!runs_cover_text("héllo", &vec![2, 4]));
    assert!(!runs_cover_text("abc", &vec![1, 1]));
    assert!(!runs_cover_text("abc", &vec![2, 2]));
    assert!(runs_cover_text("", &vec![]));
    assert!(runs_cover_text("abc", &vec![0, 3, 0]));
}

#[test]
fn run_ranges_are_consecutive() {
    assert_eq!(run_ranges(&vec![2, 0, 5]), vec![0..2, 2..2, 2..7]);
    assert_eq!(run_ranges(&vec![]), Vec::<std::ops::Range<usize>>::new());
}
