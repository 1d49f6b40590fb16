use blitz_mustang::region::Region;
use blitz_mustang::tracker::ElementTracker;
use blitz_mustang::tracker::SharedElementTracker;
use blitz_mustang::tracker::TrackedElement;

#[test]
fn test_element_tracker_new() {
    let tracker = SharedElementTracker::new();
    assert!(tracker.is_empty());
}

#[test]
fn test_track_element() {
    let tracker = SharedElementTracker::new();
    let element = TrackedElement::new(
        "test-1".to_string(),
        Region::new(0, 0, 100, 100),
        "div".to_string(),
    );

    tracker.track(element);
    assert_eq!(tracker.len(), 1);

    let retrieved = tracker.get("test-1");
    assert!(retrieved.is_some());
    assert_eq!(retrieved.unwrap().element_type, "div");
}

#[test]
fn test_update_position() {
    let tracker = SharedElementTracker::new();
    let element = TrackedElement::new(
        "test-1".to_string(),
        Region::new(0, 0, 100, 100),
        "div".to_string(),
    );

    tracker.track(element);
    tracker.update_position("test-1", Region::new(10, 10, 200, 200));

    let updated = tracker.get("test-1").unwrap();
    assert_eq!(updated.region.x, 10);
    assert_eq!(updated.region.width, 200);
}

#[test]
fn test_query_by_class() {
    let tracker = SharedElementTracker::new();
    let element = TrackedElement::new(
        "test-1".to_string(),
        Region::new(0, 0, 100, 100),
        "div".to_string(),
    )
    .with_class("backdrop");

    tracker.track(element);

    let results = tracker.query(".backdrop");
    assert_eq!(results.len(), 1);
}

#[test]
fn test_remove_element() {
    let tracker = SharedElementTracker::new();
    let element = TrackedElement::new(
        "test-1".to_string(),
        Region::new(0, 0, 100, 100),
        "div".to_string(),
    );

    tracker.track(element);
    tracker.remove("test-1");

    assert!(tracker.is_empty());
    assert!(tracker.get("test-1").is_none());
}

#[test]
fn test_query_by_id_and_type() {
    let tracker = SharedElementTracker::new();
    tracker.track(TrackedElement::new(
        "a".to_string(),
        Region::new(0, 0, 10, 10),
        "div".to_string(),
    ));
    tracker.track(TrackedElement::new(
        "b".to_string(),
        Region::new(20, 20, 10, 10),
        "button".to_string(),
    ));

    assert_eq!(tracker.query("#a").len(), 1);
    assert_eq!(tracker.query("#missing").len(), 0);
    assert_eq!(tracker.query("div").len(), 1);
    assert_eq!(tracker.query("button").len(), 1);
    assert_eq!(tracker.query("span").len(), 0);
}

#[test]
fn test_query_region() {
    let tracker = SharedElementTracker::new();
    tracker.track(TrackedElement::new(
        "a".to_string(),
        Region::new(0, 0, 10, 10),
        "div".to_string(),
    ));
    tracker.track(TrackedElement::new(
        "b".to_string(),
        Region::new(100, 100, 10, 10),
        "div".to_string(),
    ));

    let hits = tracker.query_region(&Region::new(5, 5, 10, 10));
    assert_eq!(hits.len(), 1);
    assert_eq!(hits[0].id, "a");
}

#[test]
fn test_track_overwrites_by_id() {
    let tracker = SharedElementTracker::new();
    tracker.track(TrackedElement::new(
        "a".to_string(),
        Region::new(0, 0, 10, 10),
        "div".to_string(),
    ));
    tracker.track(TrackedElement::new(
        "a".to_string(),
        Region::new(5, 5, 10, 10),
        "button".to_string(),
    ));
    assert_eq!(tracker.len(), 1);
    assert_eq!(tracker.get("a").unwrap().element_type, "button");
}

#[test]
fn test_ids_and_clear() {
    let tracker = SharedElementTracker::new();
    tracker.track(TrackedElement::new(
        "a".to_string(),
        Region::new(0, 0, 10, 10),
        "div".to_string(),
    ));
    tracker.track(TrackedElement::new(
        "b".to_string(),
        Region::new(0, 0, 10, 10),
        "div".to_string(),
    ));
    let mut ids = tracker.ids();
    ids.sort();
    assert_eq!(ids, vec!["a".to_string(), "b".to_string()]);
    tracker.clear();
    assert!(tracker.is_empty());
}

// Cleanup with a zero threshold immediately after an update removes
// nothing; once the element's age exceeds the threshold, cleanup removes
// exactly that element and reports a count of one.
#[test]
fn test_cleanup_stale_zero_age_keeps_fresh_element() {
    let mut tracker = ElementTracker::new();
    tracker.track(TrackedElement::new_at(
        "e".to_string(),
        Region::new(0, 0, 10, 10),
        "div".to_string(),
        50,
    ));
    tracker.update_position_at("e", Region::new(1, 1, 10, 10), 100);

    // immediately after the update: age zero, nothing is stale
    assert_eq!(tracker.cleanup_stale_at(0, 100), 0);
    assert_eq!(tracker.len(), 1);

    // past the threshold: exactly the one element goes, counted
    assert_eq!(tracker.cleanup_stale_at(10, 200), 1);
    assert_eq!(tracker.len(), 0);
}

#[test]
fn test_cleanup_stale_mixed_ages() {
    let mut tracker = ElementTracker::new();
    tracker.track(TrackedElement::new_at(
        "old".to_string(),
        Region::new(0, 0, 10, 10),
        "div".to_string(),
        10,
    ));
    tracker.track(TrackedElement::new_at(
        "fresh".to_string(),
        Region::new(0, 0, 10, 10),
        "div".to_string(),
        95,
    ));
    assert_eq!(tracker.cleanup_stale_at(50, 100), 1);
    assert_eq!(tracker.len(), 1);
    assert!(tracker.get("fresh").is_some());
    assert!(tracker.get("old").is_none());
}

#[test]
fn test_shared_tracker_cleanup_stale_via_clock() {
    let tracker = SharedElementTracker::new();
    tracker.track(TrackedElement::new(
        "e".to_string(),
        Region::new(0, 0, 10, 10),
        "div".to_string(),
    ));
    // a generous threshold keeps an element tracked a moment ago
    assert_eq!(tracker.cleanup_stale(60_000), 0);
    assert_eq!(tracker.len(), 1);
}

#[test]
fn test_shared_tracker_clone_shares_state() {
    let tracker = SharedElementTracker::new();
    let other = tracker.clone();
    tracker.track(TrackedElement::new(
        "e".to_string(),
        Region::new(0, 0, 10, 10),
        "div".to_string(),
    ));
    assert_eq!(other.len(), 1);
}
