use mdk_cli::cursor::CursorState;
use mdk_cli::engine::KnownGroup;
use mdk_cli::event::TransportEvent;
use mdk_cli::plan::{
    filter_admits, min_cursor, plan_sync, resolve_targets, since_bound, FetchFilter, SyncPlan,
    FETCH_LIMIT, FETCH_TIMEOUT_SECS,
};
use nostr_sdk::{EventBuilder, Keys, Kind, Timestamp};

fn take_in(signed: nostr_sdk::Event) -> TransportEvent {
    TransportEvent {
        id: signed.id.to_bytes(),
        author: signed.pubkey.to_bytes(),
        kind: signed.kind.as_u16(),
        created_at: signed.created_at.as_secs(),
        content: signed.content.clone(),
        signed,
    }
}

fn group(id: u8, name: &str) -> KnownGroup {
    KnownGroup { mls_group_id: vec![id, id], nostr_group_id: [id; 32], name: name.to_string() }
}

fn names(list: &[&str]) -> Vec<String> {
    list.iter().map(|s| s.to_string()).collect()
}

fn event(kind: u16, at: u64) -> TransportEvent {
    take_in(
        EventBuilder::new(Kind::Custom(kind), "x")
            .custom_created_at(Timestamp::from_secs(at))
            .sign_with_keys(&Keys::generate())
            .unwrap(),
    )
}

#[test]
fn targets_are_the_requested_group_or_all_known_groups() {
    let groups = vec![group(0x11, "one"), group(0xab, "two")];
    assert_eq!(resolve_targets(Some("feed"), &groups), names(&["feed"]));
    assert_eq!(resolve_targets(None, &groups), vec!["11".repeat(32), "ab".repeat(32)]);
    assert_eq!(resolve_targets(Some("feed"), &Vec::new()), names(&["feed"]));
    assert!(resolve_targets(None, &Vec::new()).is_empty());
}

#[test]
fn least_cursor_needs_a_cursor_for_every_target() {
    let mut cursors = CursorState::new();
    let targets = names(&["g1", "g2", "g3"]);
    assert_eq!(min_cursor(&cursors, &targets), None);
    cursors.update_cursor("g1", 3000);
    cursors.update_cursor("g2", 1000);
    assert_eq!(min_cursor(&cursors, &targets), None);
    cursors.update_cursor("g3", 2000);
    assert_eq!(min_cursor(&cursors, &targets), Some(1000));
    assert_eq!(min_cursor(&cursors, &names(&["g1", "g3"])), Some(2000));
    assert_eq!(min_cursor(&cursors, &names(&["g1"])), Some(3000));
    assert_eq!(min_cursor(&cursors, &names(&["g3", "g3"])), Some(2000));
    assert_eq!(min_cursor(&cursors, &Vec::new()), None);
    cursors.update_cursor("other", 1);
    assert_eq!(min_cursor(&cursors, &targets), Some(1000));
}

#[test]
fn fetch_starts_at_the_first_unseen_second() {
    let mut cursors = CursorState::new();
    let targets = names(&["g1", "g2"]);
    cursors.update_cursor("g1", 1500);
    cursors.update_cursor("g2", 2000);
    assert_eq!(since_bound(None, &cursors, &targets), Some(1501));
    cursors.update_cursor("g1", u64::MAX);
    cursors.update_cursor("g2", u64::MAX);
    assert_eq!(since_bound(None, &cursors, &targets), Some(u64::MAX));
    let mut zero = CursorState::new();
    zero.update_cursor("g1", 0);
    assert_eq!(since_bound(None, &zero, &names(&["g1"])), Some(1));
}

#[test]
fn explicit_since_overrides_the_cursors() {
    let targets = names(&["g1", "g2"]);
    let empty = CursorState::new();
    let mut full = CursorState::new();
    full.update_cursor("g1", 5000);
    full.update_cursor("g2", 6000);
    let mut partial = CursorState::new();
    partial.update_cursor("g1", 1);
    for bound in [0u64, 1, 4999, 5000, 7000, u64::MAX] {
        assert_eq!(since_bound(Some(bound), &empty, &targets), Some(bound));
        assert_eq!(since_bound(Some(bound), &full, &targets), Some(bound));
        assert_eq!(since_bound(Some(bound), &partial, &targets), Some(bound));
    }
}

#[test]
fn sync_of_no_group_fetches_nothing() {
    let mut cursors = CursorState::new();
    cursors.update_cursor("g1", 5);
    assert!(matches!(plan_sync(Vec::new(), None, &cursors), SyncPlan::Nothing));
    assert!(matches!(plan_sync(Vec::new(), Some(10), &cursors), SyncPlan::Nothing));
}

#[test]
fn sync_plan_is_one_fetch_of_application_messages() {
    let mut cursors = CursorState::new();
    cursors.update_cursor("g1", 40);
    match plan_sync(names(&["g1"]), None, &cursors) {
        SyncPlan::Fetch(filter) => {
            assert_eq!(filter.kind, 445);
            assert_eq!(filter.group_ids, names(&["g1"]));
            assert_eq!(filter.since, Some(41));
            assert_eq!(filter.limit, 100);
        }
        SyncPlan::Nothing => panic!("a fetch was due"),
    }
    match plan_sync(names(&["g1", "g2"]), Some(7), &cursors) {
        SyncPlan::Fetch(filter) => {
            assert_eq!(filter.group_ids, names(&["g1", "g2"]));
            assert_eq!(filter.since, Some(7));
        }
        SyncPlan::Nothing => panic!("a fetch was due"),
    }
    assert_eq!(FETCH_LIMIT, 100);
    assert_eq!(FETCH_TIMEOUT_SECS, 10);
}

#[test]
fn a_group_without_cursor_lifts_the_lower_bound() {
    // G1 has no cursor, G2 stands at 1000: the fetch has no lower bound.
    let mut cursors = CursorState::new();
    cursors.update_cursor("g2", 1000);
    match plan_sync(names(&["g1", "g2"]), None, &cursors) {
        SyncPlan::Fetch(filter) => assert_eq!(filter.since, None),
        SyncPlan::Nothing => panic!("a fetch was due"),
    }
}

#[test]
fn filter_lets_through_by_kind_and_time() {
    let filter =
        FetchFilter { kind: 445, group_ids: names(&["g1"]), since: Some(1001), limit: 100 };
    assert!(filter_admits(&filter, &event(445, 1001)));
    assert!(filter_admits(&filter, &event(445, 5000)));
    assert!(!filter_admits(&filter, &event(445, 1000)));
    assert!(!filter_admits(&filter, &event(444, 1001)));
    let open = FetchFilter { kind: 445, group_ids: names(&["g1"]), since: None, limit: 100 };
    assert!(filter_admits(&open, &event(445, 0)));
    assert!(!filter_admits(&open, &event(1059, 0)));
}

#[test]
fn a_second_sync_does_not_ask_for_what_the_first_consumed() {
    let mut cursors = CursorState::new();
    let stored = vec![event(445, 1000), event(445, 1001), event(445, 1001)];
    let first = match plan_sync(names(&["g1"]), None, &cursors) {
        SyncPlan::Fetch(filter) => filter,
        SyncPlan::Nothing => panic!("a fetch was due"),
    };
    assert!(stored.iter().all(|e| filter_admits(&first, e)));
    for e in &stored {
        cursors.update_cursor("g1", e.created_at);
    }
    let second = match plan_sync(names(&["g1"]), None, &cursors) {
        SyncPlan::Fetch(filter) => filter,
        SyncPlan::Nothing => panic!("a fetch was due"),
    };
    assert_eq!(second.since, Some(1002));
    assert!(stored.iter().all(|e| !filter_admits(&second, e)));
}
