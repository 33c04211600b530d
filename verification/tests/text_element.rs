use lucie::text_element::{clicked_ranges, index_is_clickable, InteractiveTextState, TextLayout};

fn measured(text: &str, lines: Vec<std::ops::Range<usize>>) -> TextLayout {
    let mut layout = TextLayout::default();
    layout.set_measurement(text.to_string(), lines);
    layout
}

#[test]
fn layout_reports_text_and_length() {
    let layout = measured("héllo", vec![0..6]);
    assert_eq!(layout.len(), 6);
    assert_eq!(layout.text(), "héllo");
}

#[test]
fn wrapped_text_puts_newlines_between_lines() {
    let layout = measured("hello wide world", vec![0..6, 6..11, 11..16]);
    assert_eq!(layout.wrapped_text(), "hello \nwide \nworld");
}

#[test]
fn wrapped_text_single_line_is_text() {
    let layout = measured("one line", vec![0..8]);
    assert_eq!(layout.wrapped_text(), "one line");
}

#[test]
fn wrapped_text_without_lines_is_empty() {
    let layout = measured("", vec![]);
    assert_eq!(layout.wrapped_text(), "");
}

#[test]
fn clicks_hit_ranges_containing_press_and_release() {
    let ranges = vec![0..5, 3..10, 12..14];
    assert_eq!(clicked_ranges(&ranges, 4, 4), vec![0, 1]);
    assert_eq!(clicked_ranges(&ranges, 4, 7), vec![1]);
    assert_eq!(clicked_ranges(&ranges, 4, 12), Vec::<usize>::new());
    assert_eq!(clicked_ranges(&ranges, 13, 12), vec![2]);
    // the end of a range is outside it
    assert_eq!(clicked_ranges(&ranges, 14, 14), Vec::<usize>::new());
}

#[test]
fn clickable_index() {
    let ranges = vec![0..5, 12..14];
    assert!(index_is_clickable(&ranges, 0));
    assert!(index_is_clickable(&ranges, 13));
    assert!(!index_is_clickable(&ranges, 5));
    assert!(!index_is_clickable(&ranges, 20));
    assert!(!index_is_clickable(&vec![], 0));
}

#[test]
fn interactive_state_starts_idle() {
    let state = InteractiveTextState::default();
    assert_eq!(state.mouse_down_index, None);
    assert_eq!(state.hovered_index, None);
}

#[test]
fn press_and_release_make_a_click() {
    let mut state = InteractiveTextState::default();
    assert!(!state.mouse_down(false, Some(3)));
    assert!(!state.mouse_down(true, None));
    assert_eq!(state.mouse_down_index, None);
    // a release with no press pending does nothing
    let stray = state.mouse_up(true, Some(5));
    assert_eq!((stray.click, stray.refresh), (None, false));
    assert!(state.mouse_down(true, Some(3)));
    assert_eq!(state.mouse_down_index, Some(3));
    // a second press while one is pending is ignored
    assert!(!state.mouse_down(true, Some(4)));
    assert_eq!(state.mouse_down_index, Some(3));
    let away = state.mouse_up(false, Some(5));
    assert_eq!((away.click, away.refresh), (None, false));
    assert_eq!(state.mouse_down_index, Some(3));
    let up = state.mouse_up(true, Some(5));
    assert_eq!((up.click, up.refresh), (Some((3, 5)), true));
    assert_eq!(state.mouse_down_index, None);
}

#[test]
fn release_off_characters_drops_the_press() {
    let mut state = InteractiveTextState::default();
    assert!(state.mouse_down(true, Some(1)));
    let up = state.mouse_up(true, None);
    assert_eq!((up.click, up.refresh), (None, true));
    assert_eq!(state.mouse_down_index, None);
}

#[test]
fn hover_changes_are_reported_once() {
    let mut state = InteractiveTextState::default();
    assert!(state.mouse_move(true, Some(2)));
    assert_eq!(state.hovered_index, Some(2));
    assert!(!state.mouse_move(true, Some(2)));
    assert!(state.mouse_move(true, Some(4)));
    assert_eq!(state.hovered_index, Some(4));
    // leaving the text is reported as hovering nothing
    assert!(state.mouse_move(false, Some(4)));
    assert_eq!(state.hovered_index, None);
    assert!(!state.mouse_move(false, None));
    assert!(!state.mouse_move(true, None));
}
