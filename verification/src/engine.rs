//! The group-state engine at its boundary: the calls into `mdk_core` that
//! this layer makes, and what it reads of their results.
//!
//! The engine owns all cryptographic group state and keeps it in its
//! database. What a call returns depends on that state, so nothing is
//! claimed of any result here: the functions that use them are verified for
//! every possible outcome.

use crate::event::{Rumor, TransportEvent, KIND_CHAT_MESSAGE};
use mdk_core::messages::MessageProcessingResult;
use vstd::prelude::*;

verus! {

/// The engine's database, carried through unopened.
#[verifier::external_type_specification]
#[verifier::external_body]
pub struct ExStorage(mdk_sqlite_storage::MdkSqliteStorage);

/// The engine's error, carried through unopened.
#[verifier::external_type_specification]
#[verifier::external_body]
pub struct ExEngineError(mdk_core::Error);

/// The engine's result of processing a message, carried through unopened.
#[verifier::external_type_specification]
#[verifier::external_body]
pub struct ExProcessingResult(mdk_core::messages::MessageProcessingResult);

/// The engine's record of a processed welcome, carried through unopened.
#[verifier::external_type_specification]
#[verifier::external_body]
pub struct ExWelcome(mdk_core::prelude::welcome_types::Welcome);

/// The engine's record of a group, carried through unopened.
#[verifier::external_type_specification]
#[verifier::external_body]
pub struct ExGroupRecord(mdk_core::prelude::group_types::Group);

/// The group-state engine over its database. The engine's own type takes its
/// storage as a parameter bound by a trait of its crate, so it is held here
/// behind a type of this library.
#[verifier::external_body]
pub struct GroupEngine {
    mdk: mdk_core::MDK<mdk_sqlite_storage::MdkSqliteStorage>,
}

/// A group that the identity is a member of.
pub struct KnownGroup {
    /// The session group identifier, owned by the engine.
    pub mls_group_id: Vec<u8>,
    /// The transport group identifier, by which events are tagged.
    pub nostr_group_id: [u8; 32],
    /// The group's name.
    pub name: String,
}

/// What the engine decrypted from an application message.
pub struct MessagePayload {
    /// The session identifier of the group that the message belongs to.
    pub session_group_id: Vec<u8>,
    /// The public key of the member who wrote the message.
    pub sender: [u8; 32],
    /// The decoded text.
    pub content: String,
}

/// The engine's result of processing one message event.
pub enum EngineResult {
    /// A message of the conversation.
    ApplicationMessage(MessagePayload),
    /// A proposal that was committed at once.
    Proposal,
    /// A proposal that was stored for an administrator.
    PendingProposal,
    /// A proposal that was ignored.
    IgnoredProposal,
    /// A proposal to join from outside.
    ExternalJoinProposal,
    /// A commit.
    Commit,
    /// A message that could not be processed.
    Unprocessable,
    /// A message that had failed before.
    PreviouslyFailed,
}

/// What the engine returned for one message event.
pub enum EngineOutcome {
    /// The engine processed the event.
    Processed(EngineResult),
    /// The engine failed on the event, for the reason given.
    Failed(String),
}

/// A welcome that the engine has processed: what this layer reads of it,
/// and the engine's record for accepting it.
pub struct WelcomeDescriptor {
    /// The identifier of the event that brought the welcome.
    pub event_id: [u8; 32],
    /// The session group identifier.
    pub mls_group_id: Vec<u8>,
    /// The transport group identifier.
    pub nostr_group_id: [u8; 32],
    /// The group's name.
    pub group_name: String,
    /// The number of members.
    pub member_count: u32,
    /// The record itself, for accepting the welcome.
    pub stored: mdk_core::prelude::welcome_types::Welcome,
}

/// Calls `MDK::new` on the storage.
#[verifier::external_body]
fn mdk_new(storage: mdk_sqlite_storage::MdkSqliteStorage) -> GroupEngine {
    GroupEngine { mdk: mdk_core::MDK::new(storage) }
}

/// Calls `MDK::process_message`.
#[verifier::external_body]
fn mdk_process_message(engine: &GroupEngine, signed: &nostr_sdk::Event) -> Result<
    MessageProcessingResult,
    mdk_core::Error,
> {
    engine.mdk.process_message(signed)
}

/// Tells the variants of the engine's result apart, and moves out what an
/// application message holds.
#[verifier::external_body]
fn read_result(result: MessageProcessingResult) -> EngineResult {
    match result {
        MessageProcessingResult::ApplicationMessage(m) => EngineResult::ApplicationMessage(MessagePayload { session_group_id: m.mls_group_id.to_vec(), sender: m.pubkey.to_bytes(), content: m.content }),
        MessageProcessingResult::Proposal(_) => EngineResult::Proposal,
        MessageProcessingResult::PendingProposal { .. } => EngineResult::PendingProposal,
        MessageProcessingResult::IgnoredProposal { .. } => EngineResult::IgnoredProposal,
        MessageProcessingResult::ExternalJoinProposal { .. } => EngineResult::ExternalJoinProposal,
        MessageProcessingResult::Commit { .. } => EngineResult::Commit,
        MessageProcessingResult::Unprocessable { .. } => EngineResult::Unprocessable,
        MessageProcessingResult::PreviouslyFailed => EngineResult::PreviouslyFailed,
    }
}

/// The text of an engine error (its `Display`).
#[verifier::external_body]
fn error_text(error: &mdk_core::Error) -> String {
    error.to_string()
}

/// Calls `MDK::process_welcome` for the event with the identifier `id`.
#[verifier::external_body]
fn mdk_process_welcome(
    engine: &GroupEngine,
    id: &[u8; 32],
    unsigned: &nostr_sdk::UnsignedEvent,
) -> Result<mdk_core::prelude::welcome_types::Welcome, mdk_core::Error> {
    engine.mdk.process_welcome(&nostr_sdk::EventId::from_byte_array(*id), unsigned)
}

/// Calls `MDK::accept_welcome`.
#[verifier::external_body]
fn mdk_accept_welcome(
    engine: &GroupEngine,
    stored: &mdk_core::prelude::welcome_types::Welcome,
) -> Result<(), mdk_core::Error> {
    engine.mdk.accept_welcome(stored)
}

/// Reads the fields of a processed welcome, and keeps the record.
#[verifier::external_body]
fn read_welcome(stored: mdk_core::prelude::welcome_types::Welcome) -> (record: WelcomeDescriptor)
    ensures
        record.stored == stored,
{
    WelcomeDescriptor {
        event_id: stored.wrapper_event_id.to_bytes(),
        mls_group_id: stored.mls_group_id.to_vec(),
        nostr_group_id: stored.nostr_group_id,
        group_name: stored.group_name.clone(),
        member_count: stored.member_count,
        stored,
    }
}

/// Calls `MDK::get_groups`.
#[verifier::external_body]
fn mdk_get_groups(engine: &GroupEngine) -> Result<
    Vec<mdk_core::prelude::group_types::Group>,
    mdk_core::Error,
> {
    engine.mdk.get_groups()
}

/// Reads the fields of a group record.
#[verifier::external_body]
fn read_group(record: &mdk_core::prelude::group_types::Group) -> KnownGroup {
    KnownGroup {
        mls_group_id: record.mls_group_id.to_vec(),
        nostr_group_id: record.nostr_group_id,
        name: record.name.clone(),
    }
}

/// Calls `EventBuilder::new` and `EventBuilder::build`: an unsigned record
/// of the given kind and content, written by `author` now.
#[verifier::external_body]
fn build_unsigned(kind: u16, content: &str, author: &[u8; 32]) -> nostr_sdk::UnsignedEvent {
    nostr_sdk::EventBuilder::new(nostr_sdk::Kind::Custom(kind), content)
        .build(nostr_sdk::PublicKey::from_byte_array(*author))
}

/// Calls `MDK::create_message` for the group with the session identifier
/// `group_id`.
#[verifier::external_body]
fn mdk_create_message(
    engine: &GroupEngine,
    group_id: &Vec<u8>,
    unsigned: nostr_sdk::UnsignedEvent,
) -> Result<nostr_sdk::Event, mdk_core::Error> {
    engine.mdk.create_message(&mdk_core::GroupId::from_slice(group_id), unsigned)
}

impl GroupEngine {
    /// The engine over the given database.
    pub fn new(storage: mdk_sqlite_storage::MdkSqliteStorage) -> (engine: GroupEngine) {
        mdk_new(storage)
    }

    /// Hands a message event to the engine and reads what it returned.
    pub(crate) fn process_message(&self, event: &TransportEvent) -> (outcome: EngineOutcome) {
        message_outcome(mdk_process_message(self, &event.signed))
    }

    /// Hands a welcome rumor to the engine, which validates and stores it.
    /// This does not join the group yet: that is `accept_welcome`.
    pub(crate) fn process_welcome(&self, event_id: &[u8; 32], rumor: &Rumor) -> (processed: Result<
        WelcomeDescriptor,
        String,
    >)
        ensures
            processed is Ok ==> processed->Ok_0.event_id == *event_id,
    {
        processed_welcome(event_id, mdk_process_welcome(self, event_id, &rumor.unsigned))
    }

    /// Commits the join that a processed welcome stands for.
    pub(crate) fn accept_welcome(&self, descriptor: &WelcomeDescriptor) -> (accepted: Result<
        (),
        String,
    >) {
        accepted_welcome(mdk_accept_welcome(self, &descriptor.stored))
    }

    /// Has the engine encrypt a chat message of `author` for a group. The
    /// result is the signed event to publish.
    pub(crate) fn create_message(&self, group_id: &Vec<u8>, author: &[u8; 32], text: &str) -> (created:
        Result<nostr_sdk::Event, String>) {
        let unsigned = build_unsigned(KIND_CHAT_MESSAGE, text, author);
        created_message(mdk_create_message(self, group_id, unsigned))
    }

    /// The groups that the engine knows, in the order in which it lists
    /// them.
    pub fn groups(&self) -> (listed: Result<Vec<KnownGroup>, String>) {
        listed_groups(mdk_get_groups(self))
    }
}

/// Reads what the engine returned for a message event: a result where it
/// processed the event, and a failure with the error's text where it did
/// not.
pub fn message_outcome(returned: Result<MessageProcessingResult, mdk_core::Error>) -> (outcome:
    EngineOutcome)
    ensures
        outcome is Processed <==> returned is Ok,
        outcome is Failed <==> returned is Err,
{
    match returned {
        Ok(result) => EngineOutcome::Processed(read_result(result)),
        Err(error) => EngineOutcome::Failed(error_text(&error)),
    }
}

/// Reads what the engine returned for a welcome: where it processed the
/// welcome, the descriptor of the engine's record under the identifier of
/// the event that brought it; where it did not, the error's text.
pub fn processed_welcome(
    event_id: &[u8; 32],
    returned: Result<mdk_core::prelude::welcome_types::Welcome, mdk_core::Error>,
) -> (processed: Result<WelcomeDescriptor, String>)
    ensures
        processed is Ok <==> returned is Ok,
        processed is Ok ==> processed->Ok_0.event_id == *event_id && processed->Ok_0.stored
            == returned->Ok_0,
{
    match returned {
        Ok(stored) => {
            let mut descriptor = read_welcome(stored);
            descriptor.event_id = *event_id;
            Ok(descriptor)
        },
        Err(error) => Err(error_text(&error)),
    }
}

/// Reads what the engine returned for accepting a welcome: success where it
/// committed the join, and the error's text where it did not.
pub fn accepted_welcome(returned: Result<(), mdk_core::Error>) -> (accepted: Result<(), String>)
    ensures
        accepted is Ok <==> returned is Ok,
{
    match returned {
        Ok(()) => Ok(()),
        Err(error) => Err(error_text(&error)),
    }
}

/// Reads what the engine returned for a message to send: the signed event
/// as the engine made it, or the error's text.
pub fn created_message(returned: Result<nostr_sdk::Event, mdk_core::Error>) -> (created: Result<
    nostr_sdk::Event,
    String,
>)
    ensures
        created is Ok <==> returned is Ok,
        created is Ok ==> created->Ok_0 == returned->Ok_0,
{
    match returned {
        Ok(signed) => Ok(signed),
        Err(error) => Err(error_text(&error)),
    }
}

/// Reads what the engine returned for its groups: one known group for each
/// of the engine's records, in their order, or the error's text.
pub fn listed_groups(
    returned: Result<Vec<mdk_core::prelude::group_types::Group>, mdk_core::Error>,
) -> (listed: Result<Vec<KnownGroup>, String>)
    ensures
        listed is Ok <==> returned is Ok,
        listed is Ok ==> listed->Ok_0@.len() == returned->Ok_0@.len(),
{
    match returned {
        Ok(records) => {
            let mut groups: Vec<KnownGroup> = Vec::new();
            let mut i: usize = 0;
            while i < records.len()
                invariant
                    i <= records.len(),
                    groups@.len() == i,
                decreases records.len() - i,
            {
                groups.push(read_group(&records[i]));
                i = i + 1;
            }
            Ok(groups)
        },
        Err(error) => Err(error_text(&error)),
    }
}

} // verus!
