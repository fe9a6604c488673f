//! The incremental sync engine: every fetched event goes through the
//! pipeline, the cursors follow the messages that come out, and the
//! messages are handed back in the order of their creation.

use crate::cursor::{advance, lemma_advance_never_behind, lemma_never_behind_transitive, never_behind, CursorState};
use crate::engine::{EngineOutcome, GroupEngine, KnownGroup};
use crate::event::TransportEvent;
use crate::hexcode::hex_text;
use crate::pipeline::{
    emitted, message_views, payload_of, receive_event, set_aside, view_of, DecryptedMessage,
    MessageView,
};
use crate::sorting::{lemma_sorted_item_was_given, stable_sort, stably_sorted};
use vstd::prelude::*;

verus! {

/// The result of one sync.
pub struct ReceiveOutput {
    /// The decrypted messages, in ascending order of creation time.
    pub messages: Vec<DecryptedMessage>,
    /// The number of messages.
    pub count: usize,
    /// The event identifier of the last message, if there is a message.
    pub last_event_id: Option<String>,
}

/// The messages that a batch of events gives, in the order of the batch,
/// where `outcomes` holds what the engine returns for each event.
pub open spec fn batch_messages(
    me: Seq<u8>,
    groups: Seq<KnownGroup>,
    events: Seq<TransportEvent>,
    outcomes: Seq<EngineOutcome>,
) -> Seq<MessageView>
    decreases events.len(),
{
    if events.len() == 0 {
        Seq::empty()
    } else {
        let before = batch_messages(me, groups, events.drop_last(), outcomes.drop_last());
        match emitted(me, groups, events.last(), outcomes.last()) {
            Some(message) => before.push(message),
            None => before,
        }
    }
}

/// The cursors after a list of messages was consumed, one after the other.
pub open spec fn advance_all(cursors: Map<Seq<char>, u64>, messages: Seq<MessageView>) -> Map<
    Seq<char>,
    u64,
>
    decreases messages.len(),
{
    if messages.len() == 0 {
        cursors
    } else {
        advance(
            advance_all(cursors, messages.drop_last()),
            messages.last().group_id,
            messages.last().created_at,
        )
    }
}

/// What holds of a batch that went through the pipeline, where `outcomes`
/// is what the engine returned: the messages are those that the events and
/// outcomes give, in the order of the events, and the cursors were advanced
/// by each of them.
pub open spec fn batch_received(
    me: Seq<u8>,
    groups: Seq<KnownGroup>,
    events: Seq<TransportEvent>,
    outcomes: Seq<EngineOutcome>,
    before: Map<Seq<char>, u64>,
    after: Map<Seq<char>, u64>,
    messages: Seq<MessageView>,
) -> bool {
    &&& outcomes.len() == events.len()
    &&& messages == batch_messages(me, groups, events, outcomes)
    &&& after == advance_all(before, messages)
}

/// The summary of a list of messages: their number and the event identifier
/// of the last of them.
pub open spec fn summarizes(output: ReceiveOutput, messages: Seq<DecryptedMessage>) -> bool {
    &&& output.messages@ == messages
    &&& output.count == messages.len()
    &&& match output.last_event_id {
        Some(id) => messages.len() > 0 && id@ == messages.last().event_id@,
        None => messages.len() == 0,
    }
}

/// Runs a batch of fetched events through the pipeline, in their order.
/// Whatever the engine returns: the messages are those that the events and
/// the engine's outcomes give, in the order of the events, and every
/// message has advanced the cursor of its group.
pub fn receive_batch(
    engine: &GroupEngine,
    me: &[u8; 32],
    groups: &Vec<KnownGroup>,
    events: &Vec<TransportEvent>,
    cursors: &mut CursorState,
) -> (messages: Vec<DecryptedMessage>)
    ensures
        exists|outcomes: Seq<EngineOutcome>|
            batch_received(
                me@,
                groups@,
                events@,
                outcomes,
                old(cursors)@,
                final(cursors)@,
                message_views(messages@),
            ),
        never_behind(old(cursors)@, final(cursors)@),
        messages@.len() <= events@.len(),
{
    let mut messages: Vec<DecryptedMessage> = Vec::new();
    let ghost mut outcomes: Seq<EngineOutcome> = Seq::empty();
    let ghost first = cursors@;
    let mut i: usize = 0;
    proof {
        assert(message_views(messages@) =~= Seq::<MessageView>::empty());
        assert(events@.take(0) =~= Seq::<TransportEvent>::empty());
    }
    while i < events.len()
        invariant
            i <= events.len(),
            first == old(cursors)@,
            batch_received(
                me@,
                groups@,
                events@.take(i as int),
                outcomes,
                first,
                cursors@,
                message_views(messages@),
            ),
            never_behind(first, cursors@),
            messages@.len() <= i,
        decreases events.len() - i,
    {
        let ghost seen = events@.take(i as int);
        let ghost longer = events@.take(i + 1);
        let ghost views = message_views(messages@);
        let ghost middle = cursors@;
        let delivered = receive_event(engine, me, groups, &events[i], cursors);
        proof {
            let outcome = choose|outcome: EngineOutcome| #[trigger]
                emitted(me@, groups@, events@[i as int], outcome) == view_of(delivered);
            let grown = outcomes.push(outcome);
            assert(longer.drop_last() =~= seen);
            assert(longer.last() == events@[i as int]);
            assert(grown.drop_last() =~= outcomes);
            assert(grown.last() == outcome);
            outcomes = grown;
            lemma_never_behind_transitive(first, middle, cursors@);
        }
        match delivered {
            Some(message) => {
                messages.push(message);
                proof {
                    assert(message_views(messages@) =~= views.push(message@));
                    assert(message_views(messages@).drop_last() =~= views);
                }
            },
            None => {},
        }
        i = i + 1;
    }
    proof {
        assert(events@.take(events@.len() as int) =~= events@);
    }
    messages
}

/// Sums up a list of messages: their number, and the event identifier of
/// the last one.
pub fn summarize(messages: Vec<DecryptedMessage>) -> (output: ReceiveOutput)
    ensures
        summarizes(output, messages@),
{
    let count = messages.len();
    let last_event_id = if count > 0 {
        Some(messages[count - 1].event_id.clone())
    } else {
        None
    };
    ReceiveOutput { messages, count, last_event_id }
}

/// The result of a sync that has no group to sync: no message.
pub fn empty_output() -> (output: ReceiveOutput)
    ensures
        summarizes(output, Seq::<DecryptedMessage>::empty()),
{
    summarize(Vec::new())
}

/// One sync over a batch of fetched events: runs every event through the
/// pipeline, advances the cursors, and returns the messages sorted by
/// creation time, ascending; messages of the same second stay in the order
/// in which they were fetched.
pub fn sync_batch(
    engine: &GroupEngine,
    me: &[u8; 32],
    groups: &Vec<KnownGroup>,
    events: &Vec<TransportEvent>,
    cursors: &mut CursorState,
) -> (output: ReceiveOutput)
    ensures
        exists|outcomes: Seq<EngineOutcome>, delivered: Seq<DecryptedMessage>|
            {
                &&& batch_received(
                    me@,
                    groups@,
                    events@,
                    outcomes,
                    old(cursors)@,
                    final(cursors)@,
                    message_views(delivered),
                )
                &&& stably_sorted(delivered, output.messages@)
            },
        summarizes(output, output.messages@),
        never_behind(old(cursors)@, final(cursors)@),
        events@.len() == 0 ==> output.count == 0 && final(cursors)@ == old(cursors)@,
{
    let delivered = receive_batch(engine, me, groups, events, cursors);
    let ghost fetched = delivered@;
    let sorted = stable_sort(delivered);
    let output = summarize(sorted);
    proof {
        let outcomes = choose|outcomes: Seq<EngineOutcome>|
            batch_received(
                me@,
                groups@,
                events@,
                outcomes,
                old(cursors)@,
                cursors@,
                message_views(fetched),
            );
        assert(batch_received(
            me@,
            groups@,
            events@,
            outcomes,
            old(cursors)@,
            cursors@,
            message_views(fetched),
        ) && stably_sorted(fetched, output.messages@));
        if events@.len() == 0 {
            assert(message_views(fetched).len() == 0);
        }
    }
    output
}

/// No update of a sync moves a cursor back: after any list of messages was
/// consumed, every group that had a cursor still has one, and none is
/// earlier than before.
pub proof fn lemma_cursors_never_decrease(cursors: Map<Seq<char>, u64>, messages: Seq<MessageView>)
    ensures
        never_behind(cursors, advance_all(cursors, messages)),
    decreases messages.len(),
{
    if messages.len() > 0 {
        let middle = advance_all(cursors, messages.drop_last());
        lemma_cursors_never_decrease(cursors, messages.drop_last());
        lemma_advance_never_behind(middle, messages.last().group_id, messages.last().created_at);
        lemma_never_behind_transitive(cursors, middle, advance_all(cursors, messages));
    }
}

/// After a list of messages was consumed, the cursor of each message's
/// group is at least as late as the message.
pub proof fn lemma_cursor_covers_messages(
    cursors: Map<Seq<char>, u64>,
    messages: Seq<MessageView>,
    i: int,
)
    requires
        0 <= i < messages.len(),
    ensures
        advance_all(cursors, messages).contains_key(messages[i].group_id),
        advance_all(cursors, messages)[messages[i].group_id] >= messages[i].created_at,
    decreases messages.len(),
{
    let middle = advance_all(cursors, messages.drop_last());
    lemma_advance_never_behind(middle, messages.last().group_id, messages.last().created_at);
    if i < messages.len() - 1 {
        lemma_cursor_covers_messages(cursors, messages.drop_last(), i);
        assert(messages.drop_last()[i] == messages[i]);
        assert(middle.contains_key(messages[i].group_id));
    }
}

/// A cursor only moves to the creation time of a message of its group: a
/// group of which no message was consumed keeps its cursor, or stays
/// without one.
pub proof fn lemma_untouched_group_keeps_cursor(
    cursors: Map<Seq<char>, u64>,
    messages: Seq<MessageView>,
    group: Seq<char>,
)
    requires
        forall|i: int| 0 <= i < messages.len() ==> (#[trigger] messages[i]).group_id != group,
    ensures
        advance_all(cursors, messages).contains_key(group) == cursors.contains_key(group),
        cursors.contains_key(group) ==> advance_all(cursors, messages)[group] == cursors[group],
    decreases messages.len(),
{
    if messages.len() > 0 {
        assert forall|i: int| 0 <= i < messages.drop_last().len() implies (
        #[trigger] messages.drop_last()[i]).group_id != group by {
            assert(messages.drop_last()[i] == messages[i]);
        }
        lemma_untouched_group_keeps_cursor(cursors, messages.drop_last(), group);
        assert(messages[messages.len() - 1].group_id != group);
    }
}

/// A cursor only ever stands at the creation time of a message that was
/// consumed for its group, or where it stood before. With the two laws
/// above: after a sync, the cursor of a group is the latest of its former
/// value and the creation times of the group's messages.
pub proof fn lemma_cursor_is_attained(
    cursors: Map<Seq<char>, u64>,
    messages: Seq<MessageView>,
    group: Seq<char>,
)
    requires
        advance_all(cursors, messages).contains_key(group),
    ensures
        (cursors.contains_key(group) && advance_all(cursors, messages)[group] == cursors[group])
            || exists|i: int|
            0 <= i < messages.len() && (#[trigger] messages[i]).group_id == group
                && messages[i].created_at == advance_all(cursors, messages)[group],
    decreases messages.len(),
{
    if messages.len() > 0 {
        let rest = messages.drop_last();
        let middle = advance_all(cursors, rest);
        let last = messages.last();
        let after = advance_all(cursors, messages);
        if last.group_id == group && after[group] == last.created_at {
            assert(messages[messages.len() - 1] == last);
        } else {
            assert(middle.contains_key(group) && middle[group] == after[group]);
            lemma_cursor_is_attained(cursors, rest, group);
            if !(cursors.contains_key(group) && middle[group] == cursors[group]) {
                let i = choose|i: int|
                    0 <= i < rest.len() && (#[trigger] rest[i]).group_id == group
                        && rest[i].created_at == middle[group];
                assert(messages[i] == rest[i]);
            }
        }
    }
}

/// Every message of a batch comes from an event of the batch that was not
/// set aside, whatever the engine returned: it carries that event's
/// identifier and creation time. So an event written by the local identity
/// is never among the messages.
pub proof fn lemma_messages_stem_from_events(
    me: Seq<u8>,
    groups: Seq<KnownGroup>,
    events: Seq<TransportEvent>,
    outcomes: Seq<EngineOutcome>,
    j: int,
) -> (i: int)
    requires
        outcomes.len() == events.len(),
        0 <= j < batch_messages(me, groups, events, outcomes).len(),
    ensures
        0 <= i < events.len(),
        emitted(me, groups, events[i], outcomes[i]) == Some(
            batch_messages(me, groups, events, outcomes)[j],
        ),
        !set_aside(me, events[i]),
        events[i].author@ != me,
        batch_messages(me, groups, events, outcomes)[j].event_id == hex_text(events[i].id@),
        batch_messages(me, groups, events, outcomes)[j].created_at == events[i].created_at,
        payload_of(outcomes[i]).is_some(),
    decreases events.len(),
{
    let before = batch_messages(me, groups, events.drop_last(), outcomes.drop_last());
    if j < before.len() {
        let i = lemma_messages_stem_from_events(
            me,
            groups,
            events.drop_last(),
            outcomes.drop_last(),
            j,
        );
        assert(events.drop_last()[i] == events[i]);
        assert(outcomes.drop_last()[i] == outcomes[i]);
        i
    } else {
        assert(events.last() == events[events.len() - 1]);
        assert(outcomes.last() == outcomes[events.len() - 1]);
        events.len() - 1
    }
}

/// A batch in which every event is set aside, or gets another result than an
/// application message from the engine, gives no message and leaves the
/// cursors as they were. This is so of a batch with no event, and of one
/// that holds only events of the local identity.
pub proof fn lemma_nothing_emitted(
    me: Seq<u8>,
    groups: Seq<KnownGroup>,
    events: Seq<TransportEvent>,
    outcomes: Seq<EngineOutcome>,
    cursors: Map<Seq<char>, u64>,
)
    requires
        outcomes.len() == events.len(),
        forall|i: int|
            0 <= i < events.len() ==> set_aside(me, #[trigger] events[i]) || payload_of(
                outcomes[i],
            ).is_none(),
    ensures
        batch_messages(me, groups, events, outcomes) == Seq::<MessageView>::empty(),
        advance_all(cursors, batch_messages(me, groups, events, outcomes)) == cursors,
    decreases events.len(),
{
    if events.len() > 0 {
        assert forall|i: int| 0 <= i < events.drop_last().len() implies set_aside(
            me,
            #[trigger] events.drop_last()[i],
        ) || payload_of(outcomes.drop_last()[i]).is_none() by {
            assert(events.drop_last()[i] == events[i]);
            assert(outcomes.drop_last()[i] == outcomes[i]);
        }
        lemma_nothing_emitted(me, groups, events.drop_last(), outcomes.drop_last(), cursors);
        assert(events.last() == events[events.len() - 1]);
        assert(outcomes.last() == outcomes[events.len() - 1]);
    }
}

/// Every message that a sync returns comes from a fetched event that was
/// not set aside and for which the engine returned an application message:
/// it carries that event's identifier and creation time. So no event of the
/// local identity, and no event with another result of the engine, is ever
/// among the returned messages.
pub proof fn lemma_returned_message_origin(
    me: Seq<u8>,
    groups: Seq<KnownGroup>,
    events: Seq<TransportEvent>,
    outcomes: Seq<EngineOutcome>,
    delivered: Seq<DecryptedMessage>,
    returned: Seq<DecryptedMessage>,
    j: int,
) -> (i: int)
    requires
        outcomes.len() == events.len(),
        message_views(delivered) == batch_messages(me, groups, events, outcomes),
        stably_sorted(delivered, returned),
        0 <= j < returned.len(),
    ensures
        0 <= i < events.len(),
        !set_aside(me, events[i]),
        events[i].author@ != me,
        payload_of(outcomes[i]).is_some(),
        returned[j].event_id@ == hex_text(events[i].id@),
        returned[j].created_at == events[i].created_at,
{
    lemma_sorted_item_was_given(delivered, returned, j);
    let d = choose|d: int| 0 <= d < delivered.len() && delivered[d] == returned[j];
    assert(message_views(delivered)[d] == delivered[d]@);
    lemma_messages_stem_from_events(me, groups, events, outcomes, d)
}

} // verus!
