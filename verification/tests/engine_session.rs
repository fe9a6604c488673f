use mdk_cli::cursor::CursorState;
use mdk_cli::engine::GroupEngine;
use mdk_cli::event::{Rumor, TransportEvent, UnwrapOutcome};
use mdk_cli::groups::{prepare_message, SendError};
use mdk_cli::pipeline::receive_event;
use mdk_cli::plan::resolve_targets;
use mdk_cli::sync::{receive_batch, sync_batch};
use mdk_cli::watch::{Watch, WatchEvent};
use mdk_cli::welcome::{accept_welcome, join_group, process_welcome, WelcomeError};
use mdk_core::prelude::NostrGroupConfigData;
use mdk_core::MDK;
use mdk_sqlite_storage::MdkSqliteStorage;
use nostr_sdk::{Event, EventBuilder, Keys, Kind, RelayUrl, Timestamp, ToBech32, UnsignedEvent};

fn take_in(signed: nostr_sdk::Event) -> TransportEvent {
    TransportEvent {
        id: signed.id.to_bytes(),
        author: signed.pubkey.to_bytes(),
        kind: signed.kind.as_u16(),
        created_at: signed.created_at.as_secs(),
        content: signed.content.clone(),
        signed,
    }
}

fn fresh_path(label: &str) -> String {
    format!("/tmp/mdk_cli_{}_{}.sqlite", label, Keys::generate().public_key().to_hex())
}

fn fresh_engine(label: &str) -> GroupEngine {
    GroupEngine::new(MdkSqliteStorage::new_unencrypted(fresh_path(label)).unwrap())
}

fn signed(keys: &Keys, kind: u16, at: u64, content: &str) -> TransportEvent {
    take_in(
        EventBuilder::new(Kind::Custom(kind), content)
            .custom_created_at(Timestamp::from_secs(at))
            .sign_with_keys(keys)
            .unwrap(),
    )
}

/// Alice creates a group with Bob and writes `texts` to it. Returns Bob's
/// engine, the welcome rumor for Bob, and Alice's message events.
fn group_with_messages(
    alice: &Keys,
    bob: &Keys,
    texts: &[&str],
) -> (GroupEngine, UnsignedEvent, Vec<Event>, [u8; 32]) {
    let relay = RelayUrl::parse("ws://localhost:8080").unwrap();
    let bob_path = fresh_path("bob");
    let key_package = {
        let bob_mdk = MDK::new(MdkSqliteStorage::new_unencrypted(&bob_path).unwrap());
        let (encoded, tags, _) = bob_mdk
            .create_key_package_for_event(&bob.public_key(), [relay.clone()])
            .unwrap();
        EventBuilder::new(Kind::MlsKeyPackage, encoded).tags(tags).sign_with_keys(bob).unwrap()
    };
    let alice_mdk = MDK::new(MdkSqliteStorage::new_unencrypted(fresh_path("alice")).unwrap());
    let config = NostrGroupConfigData::new(
        "Bob & Alice".to_string(),
        "A chat".to_string(),
        None,
        None,
        None,
        vec![relay],
        vec![alice.public_key()],
    );
    let created = alice_mdk.create_group(&alice.public_key(), vec![key_package], config).unwrap();
    alice_mdk.merge_pending_commit(&created.group.mls_group_id).unwrap();
    let welcome = created.welcome_rumors.first().unwrap().clone();
    let mut messages: Vec<Event> = Vec::new();
    for text in texts {
        let rumor = EventBuilder::new(Kind::Custom(9), *text).build(alice.public_key());
        messages.push(alice_mdk.create_message(&created.group.mls_group_id, rumor).unwrap());
    }
    let engine = GroupEngine::new(MdkSqliteStorage::new_unencrypted(&bob_path).unwrap());
    (engine, welcome, messages, created.group.nostr_group_id)
}

#[test]
fn fresh_engine_knows_no_group() {
    let engine = fresh_engine("empty");
    let groups = engine.groups().ok().unwrap();
    assert!(groups.is_empty());
    assert!(resolve_targets(None, &groups).is_empty());
}

#[test]
fn engine_failure_skips_the_event() {
    let engine = fresh_engine("bogus");
    let me = Keys::generate().public_key().to_bytes();
    let bogus = signed(&Keys::generate(), 445, 1000, "not an mls message");
    let mut cursors = CursorState::new();
    cursors.update_cursor("aa", 5);
    assert!(receive_event(&engine, &me, &Vec::new(), &bogus, &mut cursors).is_none());
    assert_eq!(cursors.get_cursor("aa"), Some(5));
    assert_eq!(cursors.len(), 1);
}

#[test]
fn batch_without_messages_gives_an_empty_result() {
    let engine = fresh_engine("batch");
    let me = Keys::generate();
    let my_key = me.public_key().to_bytes();
    let events = vec![
        signed(&Keys::generate(), 445, 10, "garbage"),
        signed(&me, 445, 20, "my own"),
        signed(&Keys::generate(), 444, 30, "a welcome"),
    ];
    let mut cursors = CursorState::new();
    cursors.update_cursor("aa", 5);
    let output = sync_batch(&engine, &my_key, &Vec::new(), &events, &mut cursors);
    assert_eq!(output.count, 0);
    assert!(output.messages.is_empty());
    assert_eq!(output.last_event_id, None);
    assert_eq!(cursors.get_cursor("aa"), Some(5));
    assert_eq!(cursors.len(), 1);
    let none = sync_batch(&engine, &my_key, &Vec::new(), &Vec::new(), &mut cursors);
    assert_eq!(none.count, 0);
    assert_eq!(cursors.len(), 1);
}

#[test]
fn welcome_is_processed_then_accepted_and_the_group_appears() {
    let alice = Keys::generate();
    let bob = Keys::generate();
    let (engine, welcome, _, nostr_group_id) = group_with_messages(&alice, &bob, &[]);
    assert!(engine.groups().ok().unwrap().is_empty());
    let json = nostr_sdk::JsonUtil::as_json(&welcome);
    let carrier = signed(&alice, 444, 100, &json);
    let rumor = Rumor::parse(&carrier.content).unwrap();
    let descriptor = process_welcome(&engine, &carrier, &rumor).ok().unwrap();
    assert_eq!(descriptor.event_id, carrier.id);
    assert_eq!(descriptor.nostr_group_id, nostr_group_id);
    assert_eq!(descriptor.group_name, "Bob & Alice");
    assert_eq!(descriptor.member_count, 2);
    let output = accept_welcome(&engine, &descriptor).ok().unwrap();
    assert_eq!(output.nostr_group_id, hex::encode(nostr_group_id));
    assert_eq!(output.group_name, "Bob & Alice");
    assert_eq!(output.member_count, 2);
    assert_eq!(output.event_id, carrier.signed.id.to_hex());
    let groups = engine.groups().ok().unwrap();
    assert!(groups
        .iter()
        .any(|g| g.nostr_group_id == nostr_group_id && g.name == "Bob & Alice"));
    assert!(resolve_targets(None, &groups).contains(&hex::encode(nostr_group_id)));
}

#[test]
fn join_group_takes_a_gift_wrapped_welcome() {
    let alice = Keys::generate();
    let bob = Keys::generate();
    let (engine, welcome, _, nostr_group_id) = group_with_messages(&alice, &bob, &[]);
    let wrap = signed(&Keys::generate(), 1059, 100, "sealed");
    let unwrap = UnwrapOutcome::Unwrapped {
        sender: alice.public_key().to_bytes(),
        rumor: Rumor::from_unsigned(welcome),
    };
    let output = join_group(&engine, &wrap, unwrap).ok().unwrap();
    assert_eq!(output.nostr_group_id, hex::encode(nostr_group_id));
    assert_eq!(output.event_id, wrap.signed.id.to_hex());
    assert_eq!(engine.groups().ok().unwrap().len(), 1);
}

#[test]
fn join_group_reports_what_the_engine_rejects() {
    let engine = fresh_engine("reject");
    let keys = Keys::generate();
    let not_a_welcome = EventBuilder::new(Kind::Custom(444), "nothing").build(keys.public_key());
    let wrap = signed(&Keys::generate(), 1059, 100, "sealed");
    let unwrap = UnwrapOutcome::Unwrapped {
        sender: keys.public_key().to_bytes(),
        rumor: Rumor::from_unsigned(not_a_welcome),
    };
    assert!(matches!(join_group(&engine, &wrap, unwrap), Err(WelcomeError::ProcessFailed(_))));
    let stray = signed(&keys, 445, 100, "x");
    assert!(matches!(
        join_group(&engine, &stray, UnwrapOutcome::NotAttempted),
        Err(WelcomeError::NotAWelcome(445))
    ));
    assert!(engine.groups().ok().unwrap().is_empty());
}

#[test]
fn messages_are_decrypted_sorted_and_not_emitted_twice() {
    let alice = Keys::generate();
    let bob = Keys::generate();
    let bob_key = bob.public_key().to_bytes();
    let (engine, welcome, messages, nostr_group_id) =
        group_with_messages(&alice, &bob, &["first", "second", "third"]);
    let wrap = signed(&Keys::generate(), 1059, 100, "sealed");
    let unwrap = UnwrapOutcome::Unwrapped {
        sender: alice.public_key().to_bytes(),
        rumor: Rumor::from_unsigned(welcome),
    };
    join_group(&engine, &wrap, unwrap).ok().unwrap();
    let events: Vec<TransportEvent> =
        messages.iter().map(|e| take_in(e.clone())).collect();
    let groups = engine.groups().ok().unwrap();
    let mut cursors = CursorState::new();
    let output = sync_batch(&engine, &bob_key, &groups, &events, &mut cursors);
    assert_eq!(output.count, 3);
    let texts: Vec<&str> = output.messages.iter().map(|m| m.content.as_str()).collect();
    let mut expected: Vec<(u64, &str)> = events
        .iter()
        .zip(["first", "second", "third"])
        .map(|(e, t)| (e.created_at, t))
        .collect();
    expected.sort_by(|a, b| a.0.cmp(&b.0));
    assert_eq!(texts, expected.iter().map(|p| p.1).collect::<Vec<&str>>());
    for m in &output.messages {
        assert_eq!(m.from_pubkey, alice.public_key().to_hex());
        assert_eq!(m.from_npub, alice.public_key().to_bech32().unwrap());
        assert!(events.iter().any(|e| e.id_hex() == m.event_id && e.created_at == m.created_at));
    }
    assert_eq!(output.last_event_id, Some(output.messages[2].event_id.clone()));
    let group = hex::encode(nostr_group_id);
    assert!(output.messages.iter().all(|m| m.group_id == group));
    let latest = events.iter().map(|e| e.created_at).max().unwrap();
    assert_eq!(cursors.get_cursor(&group), Some(latest));
    assert_eq!(cursors.len(), 1);
    // The same events again: the engine does not decrypt them a second time.
    let again = sync_batch(&engine, &bob_key, &groups, &events, &mut cursors);
    assert_eq!(again.count, 0);
    assert_eq!(cursors.get_cursor(&group), Some(latest));
    assert_eq!(cursors.len(), 1);
}

#[test]
fn watch_hands_out_each_message_at_once() {
    let alice = Keys::generate();
    let bob = Keys::generate();
    let bob_key = bob.public_key().to_bytes();
    let (engine, welcome, messages, nostr_group_id) =
        group_with_messages(&alice, &bob, &["ping"]);
    let wrap = signed(&Keys::generate(), 1059, 100, "sealed");
    let unwrap = UnwrapOutcome::Unwrapped {
        sender: alice.public_key().to_bytes(),
        rumor: Rumor::from_unsigned(welcome),
    };
    join_group(&engine, &wrap, unwrap).ok().unwrap();
    let groups = engine.groups().ok().unwrap();
    let targets = resolve_targets(None, &groups);
    assert_eq!(targets, vec![hex::encode(nostr_group_id)]);
    let mut watch = Watch::start(targets, groups, 5, CursorState::new()).ok().unwrap();
    let fetched = take_in(messages[0].clone());
    let delivered = watch.receive(&engine, &bob_key, &fetched).unwrap();
    assert_eq!(delivered.content, "ping");
    assert_eq!(delivered.group_id, hex::encode(nostr_group_id));
    assert_eq!(
        watch.cursors.get_cursor(&hex::encode(nostr_group_id)),
        Some(fetched.created_at)
    );
    assert_eq!(watch.filter().since, Some(fetched.created_at + 1));
    watch.on_event(WatchEvent::FetchSucceeded);
    // While the loop sleeps nothing is handed to the engine.
    assert!(watch.receive(&engine, &bob_key, &fetched).is_none());
}

#[test]
fn own_messages_are_not_handed_to_the_engine() {
    let alice = Keys::generate();
    let bob = Keys::generate();
    let bob_key = bob.public_key().to_bytes();
    let (engine, welcome, messages, _) = group_with_messages(&alice, &bob, &["mine"]);
    let wrap = signed(&Keys::generate(), 1059, 100, "sealed");
    let unwrap = UnwrapOutcome::Unwrapped {
        sender: alice.public_key().to_bytes(),
        rumor: Rumor::from_unsigned(welcome),
    };
    join_group(&engine, &wrap, unwrap).ok().unwrap();
    let groups = engine.groups().ok().unwrap();
    let fetched = take_in(messages[0].clone());
    // Seen by the identity that signed the carrying event, the event is set aside.
    let mut cursors = CursorState::new();
    let signer = fetched.author;
    let skipped = receive_batch(&engine, &signer, &groups, &vec![fetched], &mut cursors);
    assert!(skipped.is_empty());
    assert_eq!(cursors.len(), 0);
    // It was never handed to the engine, so it still decrypts for Bob.
    let fetched = take_in(messages[0].clone());
    let received = receive_batch(&engine, &bob_key, &groups, &vec![fetched], &mut cursors);
    assert_eq!(received.len(), 1);
    assert_eq!(received[0].content, "mine");
    assert_eq!(received[0].from_pubkey, alice.public_key().to_hex());
}

#[test]
fn message_is_prepared_for_a_known_group_only() {
    let alice = Keys::generate();
    let bob = Keys::generate();
    let bob_key = bob.public_key().to_bytes();
    let (engine, welcome, _, nostr_group_id) = group_with_messages(&alice, &bob, &[]);
    let wrap = signed(&Keys::generate(), 1059, 100, "sealed");
    let unwrap = UnwrapOutcome::Unwrapped {
        sender: alice.public_key().to_bytes(),
        rumor: Rumor::from_unsigned(welcome),
    };
    join_group(&engine, &wrap, unwrap).ok().unwrap();
    assert!(matches!(
        prepare_message(&engine, &bob_key, "nothex", "hi"),
        Err(SendError::InvalidGroupId)
    ));
    assert!(matches!(
        prepare_message(&engine, &bob_key, "abcd", "hi"),
        Err(SendError::WrongLength)
    ));
    assert!(matches!(
        prepare_message(&engine, &bob_key, &"00".repeat(32), "hi"),
        Err(SendError::GroupNotFound)
    ));
    let prepared = prepare_message(&engine, &bob_key, &hex::encode(nostr_group_id), "hi Alice")
        .ok()
        .unwrap();
    assert_eq!(prepared.kind.as_u16(), 445);
    assert_ne!(prepared.pubkey.to_bytes(), bob_key);
    assert!(prepared.verify().is_ok());
}
