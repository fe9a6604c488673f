use mdk_cli::cursor::CursorState;
use mdk_cli::engine::{EngineOutcome, EngineResult, KnownGroup, MessagePayload};
use mdk_cli::event::TransportEvent;
use mdk_cli::pipeline::{settle, DecryptedMessage};
use mdk_cli::sorting::stable_sort;
use mdk_cli::sync::{empty_output, summarize};
use nostr_sdk::{EventBuilder, Keys, Kind, Timestamp};

fn take_in(signed: nostr_sdk::Event) -> TransportEvent {
    TransportEvent {
        id: signed.id.to_bytes(),
        author: signed.pubkey.to_bytes(),
        kind: signed.kind.as_u16(),
        created_at: signed.created_at.as_secs(),
        content: signed.content.clone(),
        signed,
    }
}

fn decrypted(id: &str, at: u64) -> DecryptedMessage {
    DecryptedMessage {
        event_id: id.to_string(),
        from_pubkey: "aa".to_string(),
        from_npub: "npub1".to_string(),
        group_id: "0a".to_string(),
        content: id.to_string(),
        created_at: at,
    }
}

fn ids(messages: &[DecryptedMessage]) -> Vec<&str> {
    messages.iter().map(|m| m.event_id.as_str()).collect()
}

fn event(keys: &Keys, at: u64) -> TransportEvent {
    take_in(
        EventBuilder::new(Kind::Custom(445), "x")
            .custom_created_at(Timestamp::from_secs(at))
            .sign_with_keys(keys)
            .unwrap(),
    )
}

fn message(group: &[u8], sender: &Keys) -> EngineOutcome {
    EngineOutcome::Processed(EngineResult::ApplicationMessage(MessagePayload {
        session_group_id: group.to_vec(),
        sender: sender.public_key().to_bytes(),
        content: "text".to_string(),
    }))
}

#[test]
fn messages_are_sorted_by_creation_time() {
    let sorted = stable_sort(vec![decrypted("c", 30), decrypted("a", 10), decrypted("b", 20)]);
    assert_eq!(ids(&sorted), vec!["a", "b", "c"]);
}

#[test]
fn messages_of_the_same_second_keep_their_fetch_order() {
    let sorted = stable_sort(vec![
        decrypted("x1", 20),
        decrypted("y1", 10),
        decrypted("x2", 20),
        decrypted("y2", 10),
        decrypted("x3", 20),
        decrypted("z", 0),
        decrypted("w", u64::MAX),
        decrypted("y3", 10),
    ]);
    assert_eq!(ids(&sorted), vec!["z", "y1", "y2", "y3", "x1", "x2", "x3", "w"]);
}

#[test]
fn sorting_agrees_with_the_standard_stable_sort() {
    let mut seed: u64 = 0x2545f4914f6cdd1d;
    for round in 0..50usize {
        let mut input: Vec<DecryptedMessage> = Vec::new();
        for i in 0..(round % 17) {
            seed ^= seed << 13;
            seed ^= seed >> 7;
            seed ^= seed << 17;
            input.push(decrypted(&format!("m{}", i), seed % 5));
        }
        let mut expected: Vec<(String, u64)> =
            input.iter().map(|m| (m.event_id.clone(), m.created_at)).collect();
        expected.sort_by(|a, b| a.1.cmp(&b.1));
        let sorted: Vec<(String, u64)> =
            stable_sort(input).into_iter().map(|m| (m.event_id, m.created_at)).collect();
        assert_eq!(sorted, expected);
    }
}

#[test]
fn summary_counts_and_names_the_last_message() {
    let output = summarize(vec![decrypted("a", 10), decrypted("b", 20)]);
    assert_eq!(output.count, 2);
    assert_eq!(output.last_event_id, Some("b".to_string()));
    assert_eq!(ids(&output.messages), vec!["a", "b"]);
}

#[test]
fn empty_result_has_no_last_message() {
    let output = empty_output();
    assert_eq!(output.count, 0);
    assert_eq!(output.last_event_id, None);
    assert!(output.messages.is_empty());
}

#[test]
fn two_groups_one_without_cursor() {
    // G1 has no cursor and G2 stands at 1000. The sync finds two messages of
    // G1 and one old and one new message of G2.
    let me = Keys::generate().public_key().to_bytes();
    let other = Keys::generate();
    let groups = vec![
        KnownGroup { mls_group_id: vec![1], nostr_group_id: [0xa1; 32], name: "G1".to_string() },
        KnownGroup { mls_group_id: vec![2], nostr_group_id: [0xa2; 32], name: "G2".to_string() },
    ];
    let g1 = "a1".repeat(32);
    let g2 = "a2".repeat(32);
    let mut cursors = CursorState::new();
    cursors.update_cursor(&g2, 1000);
    let batch: Vec<(TransportEvent, EngineOutcome)> = vec![
        (event(&other, 700), message(&[1], &other)),
        (event(&other, 900), message(&[2], &other)),
        (event(&other, 800), message(&[1], &other)),
        (event(&other, 650), EngineOutcome::Processed(EngineResult::Commit)),
    ];
    let mut delivered: Vec<DecryptedMessage> = Vec::new();
    for (fetched, outcome) in batch {
        if let Some(m) = settle(&me, &groups, &fetched, outcome, &mut cursors) {
            delivered.push(m);
        }
    }
    assert_eq!(cursors.get_cursor(&g1), Some(800));
    assert_eq!(cursors.get_cursor(&g2), Some(1000));
    let output = summarize(stable_sort(delivered));
    assert_eq!(output.count, 3);
    let times: Vec<u64> = output.messages.iter().map(|m| m.created_at).collect();
    assert_eq!(times, vec![700, 800, 900]);
    let of_groups: Vec<&str> = output.messages.iter().map(|m| m.group_id.as_str()).collect();
    assert_eq!(of_groups, vec![g1.as_str(), g1.as_str(), g2.as_str()]);
    // A newer message of G2 moves its cursor.
    let newer = settle(&me, &groups, &event(&other, 1200), message(&[2], &other), &mut cursors);
    assert!(newer.is_some());
    assert_eq!(cursors.get_cursor(&g2), Some(1200));
    assert_eq!(cursors.get_cursor(&g1), Some(800));
    assert_eq!(cursors.len(), 2);
}
