//! The groups of the identity: listing them, and finding the one that a
//! message is sent to.

use crate::engine::{GroupEngine, KnownGroup};
use crate::hexcode::{hex_bytes, hex_decode, hex_encode, hex_text, is_hex_text};
use vstd::prelude::*;

verus! {

/// One group, as it is listed.
pub struct GroupInfo {
    /// The transport group identifier, in hexadecimal.
    pub nostr_group_id: String,
    /// The group's name.
    pub name: String,
}

/// The listing of the groups.
pub struct ListGroupsOutput {
    pub groups: Vec<GroupInfo>,
    pub count: usize,
}

/// Why a message could not be prepared for sending.
pub enum SendError {
    /// The group identifier is no hexadecimal text.
    InvalidGroupId,
    /// The group identifier does not stand for 32 bytes.
    WrongLength,
    /// The engine could not list the groups, for the reason given.
    GroupsUnavailable(String),
    /// No known group has this transport identifier.
    GroupNotFound,
    /// The engine could not encrypt the message, for the reason given.
    EncryptFailed(String),
}

/// What is reported of a message that was sent.
pub struct SendOutput {
    /// The identifier of the published event, in hexadecimal.
    pub event_id: String,
    /// The group identifier as it was given.
    pub group_id: String,
    /// The length of the message, in bytes.
    pub message_length: usize,
}

/// Whether `i` is the place of the first group with the transport
/// identifier `id`.
pub open spec fn first_with_id(groups: Seq<KnownGroup>, id: Seq<u8>, i: int) -> bool {
    &&& 0 <= i < groups.len()
    &&& groups[i].nostr_group_id@ == id
    &&& forall|j: int| 0 <= j < i ==> (#[trigger] groups[j]).nostr_group_id@ != id
}

/// Whether no group has the transport identifier `id`.
pub open spec fn none_with_id(groups: Seq<KnownGroup>, id: Seq<u8>) -> bool {
    forall|j: int| 0 <= j < groups.len() ==> (#[trigger] groups[j]).nostr_group_id@ != id
}

/// Lists the groups: the transport identifier and the name of each, in the
/// order given, and their number.
pub fn list_groups(groups: &Vec<KnownGroup>) -> (output: ListGroupsOutput)
    ensures
        output.count == groups@.len(),
        output.groups@.len() == groups@.len(),
        forall|i: int|
            0 <= i < groups@.len() ==> (#[trigger] output.groups@[i]).nostr_group_id@ == hex_text(
                groups@[i].nostr_group_id@,
            ) && output.groups@[i].name@ == groups@[i].name@,
{
    let mut infos: Vec<GroupInfo> = Vec::new();
    let mut i: usize = 0;
    while i < groups.len()
        invariant
            i <= groups.len(),
            infos@.len() == i,
            forall|j: int|
                0 <= j < i ==> (#[trigger] infos@[j]).nostr_group_id@ == hex_text(
                    groups@[j].nostr_group_id@,
                ) && infos@[j].name@ == groups@[j].name@,
        decreases groups.len() - i,
    {
        infos.push(
            GroupInfo {
                nostr_group_id: hex_encode(groups[i].nostr_group_id.as_slice()),
                name: groups[i].name.clone(),
            },
        );
        i = i + 1;
    }
    let count = infos.len();
    ListGroupsOutput { groups: infos, count }
}

/// Reads a transport group identifier from hexadecimal text: the text must
/// be hexadecimal and stand for exactly 32 bytes.
pub fn parse_group_id(text: &str) -> (parsed: Result<[u8; 32], SendError>)
    ensures
        !is_hex_text(text@) ==> parsed is Err && parsed->Err_0 is InvalidGroupId,
        is_hex_text(text@) && text@.len() != 64 ==> parsed is Err && parsed->Err_0 is WrongLength,
        is_hex_text(text@) && text@.len() == 64 ==> parsed is Ok && parsed->Ok_0@ == hex_bytes(
            text@,
        ),
{
    let bytes = match hex_decode(text) {
        Ok(bytes) => bytes,
        Err(_) => {
            return Err(SendError::InvalidGroupId);
        },
    };
    if bytes.len() != 32 {
        return Err(SendError::WrongLength);
    }
    let mut id: [u8; 32] = [0u8; 32];
    let mut i: usize = 0;
    while i < 32
        invariant
            i <= 32,
            bytes@.len() == 32,
            forall|j: int| 0 <= j < i ==> id@[j] == bytes@[j],
        decreases 32 - i,
    {
        id[i] = bytes[i];
        i = i + 1;
    }
    assert(id@ =~= bytes@);
    Ok(id)
}

/// Finds the group with the transport identifier `id`: the place of the
/// first such group, or `None` where no group has it.
pub fn find_group(groups: &Vec<KnownGroup>, id: &[u8; 32]) -> (found: Option<usize>)
    ensures
        match found {
            Some(i) => first_with_id(groups@, id@, i as int),
            None => none_with_id(groups@, id@),
        },
{
    let mut i: usize = 0;
    while i < groups.len()
        invariant
            i <= groups.len(),
            forall|j: int| 0 <= j < i ==> (#[trigger] groups@[j]).nostr_group_id@ != id@,
        decreases groups.len() - i,
    {
        if crate::event::same_key(&groups[i].nostr_group_id, id) {
            return Some(i);
        }
        i = i + 1;
    }
    None
}

/// Prepares a message for a group: reads the group identifier, finds the
/// group among those that the engine knows, and has the engine encrypt the
/// message. The result is the signed event to publish. An identifier that
/// is no hexadecimal text of 32 bytes is rejected before the engine is
/// asked for anything.
pub fn prepare_message(engine: &GroupEngine, me: &[u8; 32], group_id: &str, message: &str) -> (prepared:
    Result<nostr_sdk::Event, SendError>)
    ensures
        !is_hex_text(group_id@) ==> prepared is Err && prepared->Err_0 is InvalidGroupId,
        is_hex_text(group_id@) && group_id@.len() != 64 ==> prepared is Err
            && prepared->Err_0 is WrongLength,
        prepared is Err && is_hex_text(group_id@) && group_id@.len() == 64 ==> (
        prepared->Err_0 is GroupsUnavailable || prepared->Err_0 is GroupNotFound
            || prepared->Err_0 is EncryptFailed),
{
    let id = match parse_group_id(group_id) {
        Ok(id) => id,
        Err(error) => {
            return Err(error);
        },
    };
    let groups = match engine.groups() {
        Ok(groups) => groups,
        Err(reason) => {
            return Err(SendError::GroupsUnavailable(reason));
        },
    };
    let place = match find_group(&groups, &id) {
        Some(place) => place,
        None => {
            return Err(SendError::GroupNotFound);
        },
    };
    match engine.create_message(&groups[place].mls_group_id, me, message) {
        Ok(event) => Ok(event),
        Err(reason) => Err(SendError::EncryptFailed(reason)),
    }
}

/// What is reported of a message that was published under the identifier
/// `published`.
pub fn send_output(published: &[u8; 32], group_id: &str, message: &str) -> (output: SendOutput)
    ensures
        output.event_id@ == hex_text(published@),
        output.group_id@ == group_id@,
        output.message_length == message.len(),
{
    SendOutput {
        event_id: hex_encode(published.as_slice()),
        group_id: group_id.to_owned(),
        message_length: message.len(),
    }
}

} // verus!
