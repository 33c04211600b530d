use std::sync::atomic::{AtomicUsize, Ordering};

use lucie::atomic_counter::{attempt_outcome, incremented, try_incr_if_not_zero, IncrAttempt};
use lucie::display::uuid_from_hash;
use lucie::file_url::{file_url_path, path_from_decoded_url};
use lucie::layout_id::LayoutId;
use lucie::serial::{SerialKind, SerialTracker};

#[test]
fn file_urls_become_paths() {
    assert_eq!(file_url_path("file:///home/me/a%20b.txt").as_deref(), Some("/home/me/a b.txt"));
    assert_eq!(file_url_path("file:///tmp/%C3%A9t%C3%A9").as_deref(), Some("/tmp/été"));
    assert_eq!(file_url_path("file://host/share/x"), None);
    assert_eq!(file_url_path("http:///x"), None);
    assert_eq!(file_url_path("file://"), None);
    // decodes to invalid UTF-8
    assert_eq!(file_url_path("file:///%FF"), None);
    // a lone `%` stays as it is
    assert_eq!(file_url_path("file:///100%").as_deref(), Some("/100%"));
    assert_eq!(file_url_path("file:///%2x").as_deref(), Some("/%2x"));
}

#[test]
fn decoded_url_path() {
    assert_eq!(path_from_decoded_url("file:///a").as_deref(), Some("/a"));
    assert_eq!(path_from_decoded_url("file:/a"), None);
}

#[test]
fn serials_default_to_zero() {
    let mut tracker = SerialTracker::new();
    assert_eq!(tracker.get(SerialKind::KeyPress), 0);
    tracker.update(SerialKind::KeyPress, 17);
    tracker.update(SerialKind::MouseEnter, 3);
    assert_eq!(tracker.get(SerialKind::KeyPress), 17);
    assert_eq!(tracker.get(SerialKind::MouseEnter), 3);
    assert_eq!(tracker.get(SerialKind::DataDevice), 0);
    tracker.update(SerialKind::KeyPress, 20);
    assert_eq!(tracker.get(SerialKind::KeyPress), 20);
}

#[test]
fn layout_id_round_trip() {
    let id = LayoutId::from(42u64);
    assert_eq!(u64::from(id), 42);
    assert_eq!(LayoutId::from(7u64), LayoutId::from(7u64));
}

#[test]
fn uuid_repeats_hash_bytes() {
    let uuid = uuid_from_hash(0x0807060504030201);
    assert_eq!(uuid, [1, 2, 3, 4, 5, 6, 7, 8, 1, 2, 3, 4, 5, 6, 7, 8]);
    assert_eq!(uuid_from_hash(0x0807060504030201u64), {
        let b = 0x0807060504030201u64.to_le_bytes();
        [b[0], b[1], b[2], b[3], b[4], b[5], b[6], b[7], b[0], b[1], b[2], b[3], b[4], b[5], b[6], b[7]]
    });
}

#[test]
fn zero_counter_is_not_incremented() {
    let counter = AtomicUsize::new(0);
    assert_eq!(try_incr_if_not_zero(&counter, 0), IncrAttempt::Done(0));
    assert_eq!(counter.load(Ordering::SeqCst), 0);
}

#[test]
fn counter_is_incremented_or_retried() {
    let counter = AtomicUsize::new(3);
    let mut loaded = counter.load(Ordering::SeqCst);
    let result = loop {
        match try_incr_if_not_zero(&counter, loaded) {
            IncrAttempt::Done(v) => break v,
            IncrAttempt::Retry(actual) => loaded = actual,
        }
    };
    assert_eq!(result, 4);
    assert_eq!(counter.load(Ordering::SeqCst), 4);
    // a stale value makes the attempt fail and report what is there
    assert_eq!(try_incr_if_not_zero(&counter, 3), IncrAttempt::Retry(4));
}

#[test]
fn attempt_steps_are_exact() {
    assert_eq!(incremented(7), 8);
    assert_eq!(attempt_outcome(Ok(7)), IncrAttempt::Done(8));
    assert_eq!(attempt_outcome(Err(9)), IncrAttempt::Retry(9));
}

#[test]
fn serials_after_several_updates_are_the_last_ones() {
    let mut t = SerialTracker::new();
    t.update(SerialKind::KeyPress, 3);
    t.update(SerialKind::MousePress, 5);
    t.update(SerialKind::KeyPress, 8);
    assert_eq!(t.get(SerialKind::KeyPress), 8);
    assert_eq!(t.get(SerialKind::MousePress), 5);
    assert_eq!(t.get(SerialKind::DataDevice), 0);
}
