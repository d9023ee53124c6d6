//! Tests of the batch tag-error selection logic.

use qbittorrent::data::Tracker;
use qbittorrent::workflow::{batch_tag_query, item_selected, select_error_hashes, tracker_disqualifies};

fn working(url: &str) -> Tracker {
    Tracker::new(url.to_string(), 2, 0, String::new())
}

fn not_working(url: &str, msg: &str) -> Tracker {
    Tracker::new(url.to_string(), 4, 0, msg.to_string())
}

#[test]
fn selects_exactly_the_items_with_failing_trackers() {
    // Item A has one working tracker, item B one not-working tracker with
    // a message, item C one not-working tracker without a message.
    let items = vec![
        (qbittorrent::data::Hash::from("A".to_string()), vec![working("http://a")]),
        (qbittorrent::data::Hash::from("B".to_string()), vec![not_working("http://b", "announce failed")]),
        (qbittorrent::data::Hash::from("C".to_string()), vec![not_working("http://c", "")]),
    ];

    let strict: Vec<String> =
        select_error_hashes(&items, false).into_iter().map(|h| h.inner()).collect();
    assert_eq!(strict, vec!["B".to_string()]);

    let all: Vec<String> =
        select_error_hashes(&items, true).into_iter().map(|h| h.inner()).collect();
    assert_eq!(all, vec!["B".to_string(), "C".to_string()]);
}

#[test]
fn disabled_trackers_never_disqualify() {
    let disabled = Tracker::new("u".to_string(), 0, 0, "whatever".to_string());
    assert!(!tracker_disqualifies(&disabled, true));
    assert!(!tracker_disqualifies(&disabled, false));
}

#[test]
fn unknown_status_with_message_disqualifies() {
    let odd = Tracker::new("u".to_string(), 99, 0, "strange".to_string());
    assert!(tracker_disqualifies(&odd, false));
    let silent = Tracker::new("u".to_string(), 99, 0, String::new());
    assert!(!tracker_disqualifies(&silent, false));
    assert!(tracker_disqualifies(&silent, true));
}

#[test]
fn an_item_without_trackers_is_never_selected() {
    assert!(!item_selected(&Vec::new(), true));
    let items = vec![(qbittorrent::data::Hash::from("A".to_string()), Vec::new())];
    assert!(select_error_hashes(&items, true).is_empty());
}

#[test]
fn one_failing_tracker_among_many_selects_the_item() {
    let trackers = vec![working("one"), working("two"), not_working("three", "late")];
    assert!(item_selected(&trackers, false));
}

#[test]
fn batch_query_joins_the_selection() {
    let hashes = vec![qbittorrent::data::Hash::from("B".to_string()), qbittorrent::data::Hash::from("C".to_string())];
    let tags = vec!["notworking".to_string()];
    assert_eq!(batch_tag_query(&hashes, &tags).unwrap(), "hashes=B|C&tags=notworking");
}

#[test]
fn empty_selection_owes_no_call() {
    let tags = vec!["notworking".to_string()];
    assert!(batch_tag_query(&Vec::new(), &tags).is_none());
}
