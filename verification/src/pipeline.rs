//! The decrypt pipeline for application messages: from a fetched event and
//! what the group engine returned for it to a decrypted message, or to
//! nothing.

use crate::cursor::{advance, never_behind, CursorState};
use crate::engine::{EngineOutcome, EngineResult, GroupEngine, KnownGroup, MessagePayload};
use crate::event::{class_of, classify, ClassifiedEvent, TransportEvent, UnwrapOutcome};
use crate::hexcode::{hex_encode, hex_text};
use crate::identity::{npub_text, show_key};
use crate::sorting::Keyed;
use vstd::prelude::*;

verus! {

/// A decrypted application message, as it is handed to the caller.
pub struct DecryptedMessage {
    /// The identifier of the event that carried the message, in hexadecimal.
    pub event_id: String,
    /// The sender's public key, in hexadecimal.
    pub from_pubkey: String,
    /// The sender's public key, in bech32.
    pub from_npub: String,
    /// The transport identifier of the message's group, in hexadecimal.
    pub group_id: String,
    /// The decoded text.
    pub content: String,
    /// The creation time of the carrying event, in seconds.
    pub created_at: u64,
}

/// The mathematical content of a decrypted message.
pub struct MessageView {
    pub event_id: Seq<char>,
    pub from_pubkey: Seq<char>,
    pub from_npub: Seq<char>,
    pub group_id: Seq<char>,
    pub content: Seq<char>,
    pub created_at: u64,
}

impl View for DecryptedMessage {
    type V = MessageView;

    open spec fn view(&self) -> MessageView {
        MessageView {
            event_id: self.event_id@,
            from_pubkey: self.from_pubkey@,
            from_npub: self.from_npub@,
            group_id: self.group_id@,
            content: self.content@,
            created_at: self.created_at,
        }
    }
}

impl Keyed for DecryptedMessage {
    open spec fn sort_key(&self) -> u64 {
        self.created_at
    }

    fn key(&self) -> (k: u64) {
        self.created_at
    }
}

/// The views of a list of messages.
pub open spec fn message_views(list: Seq<DecryptedMessage>) -> Seq<MessageView> {
    list.map_values(|m: DecryptedMessage| m@)
}

/// What the engine decrypted, where its outcome is an application message;
/// `None` for every other result and for a failure.
pub open spec fn payload_of(outcome: EngineOutcome) -> Option<MessagePayload> {
    match outcome {
        EngineOutcome::Processed(EngineResult::ApplicationMessage(payload)) => Some(payload),
        _ => None,
    }
}

/// The transport identifier of the group with the session identifier
/// `session`: that of the first known group with this session identifier.
/// A group that is not known goes by its session identifier.
pub open spec fn transport_id_of(groups: Seq<KnownGroup>, session: Seq<u8>) -> Seq<u8>
    decreases groups.len(),
{
    if groups.len() == 0 {
        session
    } else if groups.first().mls_group_id@ == session {
        groups.first().nostr_group_id@
    } else {
        transport_id_of(groups.drop_first(), session)
    }
}

/// The message that an event and its decrypted payload make.
pub open spec fn message_of(
    groups: Seq<KnownGroup>,
    event: TransportEvent,
    payload: MessagePayload,
) -> MessageView {
    MessageView {
        event_id: hex_text(event.id@),
        from_pubkey: hex_text(payload.sender@),
        from_npub: npub_text(payload.sender@),
        group_id: hex_text(transport_id_of(groups, payload.session_group_id@)),
        content: payload.content@,
        created_at: event.created_at,
    }
}

/// Whether the pipeline leaves an event aside without asking the engine:
/// it is written by the local identity itself, or it is not classified as
/// an application message.
pub open spec fn set_aside(me: Seq<u8>, event: TransportEvent) -> bool {
    event.author@ == me || class_of(event.kind, None) != ClassifiedEvent::ApplicationMessage
}

/// What the pipeline emits for an event, given the engine's outcome for it:
/// a message where the event was not set aside and the engine returned an
/// application message, and nothing in every other case.
pub open spec fn emitted(
    me: Seq<u8>,
    groups: Seq<KnownGroup>,
    event: TransportEvent,
    outcome: EngineOutcome,
) -> Option<MessageView> {
    if set_aside(me, event) {
        None
    } else {
        match payload_of(outcome) {
            Some(payload) => Some(message_of(groups, event, payload)),
            None => None,
        }
    }
}

/// The cursors after an event was handled: advanced by the emitted message,
/// if there is one, and unchanged if there is none.
pub open spec fn cursors_after(cursors: Map<Seq<char>, u64>, emitted: Option<MessageView>) -> Map<
    Seq<char>,
    u64,
> {
    match emitted {
        Some(message) => advance(cursors, message.group_id, message.created_at),
        None => cursors,
    }
}

/// The view of an optional message.
pub open spec fn view_of(message: Option<DecryptedMessage>) -> Option<MessageView> {
    match message {
        Some(m) => Some(m@),
        None => None,
    }
}

/// Whether the pipeline leaves the event aside without asking the engine.
pub fn is_set_aside(me: &[u8; 32], event: &TransportEvent) -> (aside: bool)
    ensures
        aside == set_aside(me@, *event),
{
    if event.is_authored_by(me) {
        return true;
    }
    match classify(event.kind, &UnwrapOutcome::NotAttempted) {
        ClassifiedEvent::ApplicationMessage => false,
        _ => true,
    }
}

/// Whether two byte strings are the same.
pub fn same_bytes(a: &Vec<u8>, b: &Vec<u8>) -> (same: bool)
    ensures
        same == (a@ == b@),
{
    if a.len() != b.len() {
        return false;
    }
    let mut i: usize = 0;
    while i < a.len()
        invariant
            i <= a.len(),
            a@.len() == b@.len(),
            forall|j: int| 0 <= j < i ==> a@[j] == b@[j],
        decreases a.len() - i,
    {
        if a[i] != b[i] {
            return false;
        }
        i = i + 1;
    }
    assert(a@ =~= b@);
    true
}

/// The transport identifier of the group with the session identifier
/// `session`, in hexadecimal text. A group that is not known goes by its
/// session identifier.
pub fn group_text(groups: &Vec<KnownGroup>, session: &Vec<u8>) -> (text: String)
    ensures
        text@ == hex_text(transport_id_of(groups@, session@)),
{
    let mut i: usize = 0;
    assert(groups@.subrange(0, groups@.len() as int) =~= groups@);
    while i < groups.len()
        invariant
            i <= groups.len(),
            transport_id_of(groups@, session@) == transport_id_of(
                groups@.subrange(i as int, groups@.len() as int),
                session@,
            ),
        decreases groups.len() - i,
    {
        let ghost rest = groups@.subrange(i as int, groups@.len() as int);
        proof {
            assert(rest.first() == groups@[i as int]);
            assert(rest.drop_first() =~= groups@.subrange(i + 1, groups@.len() as int));
        }
        if same_bytes(&groups[i].mls_group_id, session) {
            return hex_encode(groups[i].nostr_group_id.as_slice());
        }
        i = i + 1;
    }
    proof {
        assert(groups@.subrange(groups@.len() as int, groups@.len() as int).len() == 0);
    }
    hex_encode(session.as_slice())
}

/// Turns the engine's outcome for an event into a decrypted message. Only
/// an application message gives one: every other result, and a failure, is
/// skipped without an error.
pub fn deliver(groups: &Vec<KnownGroup>, event: &TransportEvent, outcome: EngineOutcome) -> (delivered:
    Option<DecryptedMessage>)
    ensures
        delivered.is_some() == payload_of(outcome).is_some(),
        delivered.is_some() ==> delivered.unwrap()@ == message_of(
            groups@,
            *event,
            payload_of(outcome).unwrap(),
        ),
{
    match outcome {
        EngineOutcome::Processed(EngineResult::ApplicationMessage(payload)) => {
            let sender = show_key(&payload.sender);
            Some(
                DecryptedMessage {
                    event_id: event.id_hex(),
                    from_pubkey: sender.hex,
                    from_npub: sender.npub,
                    group_id: group_text(groups, &payload.session_group_id),
                    content: payload.content,
                    created_at: event.created_at,
                },
            )
        },
        _ => None,
    }
}

/// Handles one fetched event, given the engine's outcome for it: emits the
/// message, if the event gives one, and advances the cursor of the
/// message's group to the event's creation time.
pub fn settle(
    me: &[u8; 32],
    groups: &Vec<KnownGroup>,
    event: &TransportEvent,
    outcome: EngineOutcome,
    cursors: &mut CursorState,
) -> (delivered: Option<DecryptedMessage>)
    ensures
        view_of(delivered) == emitted(me@, groups@, *event, outcome),
        final(cursors)@ == cursors_after(old(cursors)@, emitted(me@, groups@, *event, outcome)),
        never_behind(old(cursors)@, final(cursors)@),
{
    if is_set_aside(me, event) {
        return None;
    }
    match deliver(groups, event, outcome) {
        Some(message) => {
            cursors.update_cursor(message.group_id.as_str(), message.created_at);
            Some(message)
        },
        None => None,
    }
}

/// Handles one fetched event: unless it is set aside, hands it to the
/// engine, and settles what the engine returned. Whatever the engine
/// returns, an event written by the local identity gives no message, and a
/// message that is emitted is the one that the event and some outcome of
/// the engine make.
pub fn receive_event(
    engine: &GroupEngine,
    me: &[u8; 32],
    groups: &Vec<KnownGroup>,
    event: &TransportEvent,
    cursors: &mut CursorState,
) -> (delivered: Option<DecryptedMessage>)
    ensures
        exists|outcome: EngineOutcome| #[trigger]
            emitted(me@, groups@, *event, outcome) == view_of(delivered),
        final(cursors)@ == cursors_after(old(cursors)@, view_of(delivered)),
        never_behind(old(cursors)@, final(cursors)@),
        set_aside(me@, *event) ==> delivered.is_none(),
{
    if is_set_aside(me, event) {
        proof {
            let any = EngineOutcome::Processed(EngineResult::Commit);
            assert(emitted(me@, groups@, *event, any) == view_of(None::<DecryptedMessage>));
        }
        return None;
    }
    let outcome = engine.process_message(event);
    let ghost seen = outcome;
    let delivered = settle(me, groups, event, outcome, cursors);
    assert(emitted(me@, groups@, *event, seen) == view_of(delivered));
    delivered
}

} // verus!
