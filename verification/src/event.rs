//! Transport events as this layer reads them, and their classification.

use crate::hexcode::{hex_bytes, hex_encode, hex_text, is_hex_text};
use vstd::prelude::*;

verus! {

/// The kind of a welcome: an invitation to join a group.
pub const KIND_WELCOME: u16 = 444;

/// The kind of an encrypted group message.
pub const KIND_MLS_MESSAGE: u16 = 445;

/// The kind of the chat message that is encrypted for a group.
pub const KIND_CHAT_MESSAGE: u16 = 9;

/// The kind of a gift wrap: a sealed envelope around another record.
pub const KIND_GIFT_WRAP: u16 = 1059;

/// A signed event of the relay network, carried through to the group engine
/// unopened.
#[verifier::external_type_specification]
#[verifier::external_body]
pub struct ExEvent(nostr_sdk::Event);

/// An unsigned inner record, carried through to the group engine unopened.
#[verifier::external_type_specification]
#[verifier::external_body]
pub struct ExUnsignedEvent(nostr_sdk::UnsignedEvent);

/// The error of the JSON parser, carried through unopened.
#[verifier::external_type_specification]
#[verifier::external_body]
pub struct ExJsonError(serde_json::Error);

/// An event fetched from the transport: what this layer reads of it, as
/// plain values, and the signed event itself for the group engine. Whoever
/// fetches the event fills in the plain values from the signed event.
pub struct TransportEvent {
    /// The event's identifier.
    pub id: [u8; 32],
    /// The public key of the event's author.
    pub author: [u8; 32],
    /// The declared kind.
    pub kind: u16,
    /// The creation time, in seconds.
    pub created_at: u64,
    /// The content.
    pub content: String,
    /// The signed event as delivered, for the group engine.
    pub signed: nostr_sdk::Event,
}

/// An unsigned inner record (a rumor): its kind, and the record itself for
/// the group engine. Whoever opens a gift wrap fills in the kind from the
/// record.
pub struct Rumor {
    /// The record's declared kind.
    pub kind: u16,
    /// The record as it was read, for the group engine.
    pub unsigned: nostr_sdk::UnsignedEvent,
}

/// What came of opening a gift wrap.
pub enum UnwrapOutcome {
    /// The event is no gift wrap, so nothing was opened.
    NotAttempted,
    /// The envelope could not be opened.
    Failed,
    /// The envelope held this rumor, sealed by this sender.
    Unwrapped { sender: [u8; 32], rumor: Rumor },
}

/// What a transport event is, for this layer.
#[derive(Clone, Copy, Debug, PartialEq, Eq, Structural)]
pub enum ClassifiedEvent {
    /// A plain welcome.
    Welcome,
    /// A gift wrap that holds a welcome.
    GiftWrappedWelcome,
    /// An encrypted group message.
    ApplicationMessage,
    /// Anything else; it is dropped.
    Unrecognized,
}

/// The kind of the rumor inside an opened gift wrap, if it was opened.
pub open spec fn inner_kind(unwrap: UnwrapOutcome) -> Option<u16> {
    match unwrap {
        UnwrapOutcome::Unwrapped { sender, rumor } => Some(rumor.kind),
        _ => None,
    }
}

/// The class of an event with the declared kind `kind`, where opening it
/// (if it is a gift wrap) gave a rumor of kind `inner`, or gave none.
pub open spec fn class_of(kind: u16, inner: Option<u16>) -> ClassifiedEvent {
    if kind == KIND_WELCOME {
        ClassifiedEvent::Welcome
    } else if kind == KIND_MLS_MESSAGE {
        ClassifiedEvent::ApplicationMessage
    } else if kind == KIND_GIFT_WRAP && inner == Some(KIND_WELCOME) {
        ClassifiedEvent::GiftWrappedWelcome
    } else {
        ClassifiedEvent::Unrecognized
    }
}

/// Reads the kind of an unsigned record (`Kind::as_u16`).
#[verifier::external_body]
fn unsigned_kind(unsigned: &nostr_sdk::UnsignedEvent) -> u16 {
    unsigned.kind.as_u16()
}

/// Whether a text is the JSON form of an unsigned record: whether
/// `serde_json::from_str` reads one from it.
pub uninterp spec fn holds_rumor(text: Seq<char>) -> bool;

/// Calls `serde_json::from_str` to read an unsigned record from JSON text.
/// Trusted: whether it succeeds depends on the text alone. Nothing is
/// claimed of the record.
#[verifier::external_body]
fn unsigned_from_json(text: &str) -> (read: Result<nostr_sdk::UnsignedEvent, serde_json::Error>)
    ensures
        read.is_ok() == holds_rumor(text@),
{
    serde_json::from_str(text)
}

/// The event identifier that a bech32 text (`note1...`) stands for: what
/// `FromBech32::from_bech32` of the `nostr` crate reads from it, or `None`
/// where it reads none.
pub uninterp spec fn note_id(text: Seq<char>) -> Option<Seq<u8>>;

/// The bytes of an optional identifier.
pub open spec fn id_bytes(id: Option<[u8; 32]>) -> Option<Seq<u8>> {
    match id {
        Some(bytes) => Some(bytes@),
        None => None,
    }
}

/// Calls `EventId::from_hex`. Trusted: it succeeds exactly on hexadecimal
/// texts of 64 digits, and then gives the 32 bytes they stand for.
#[verifier::external_body]
fn id_from_hex(text: &str) -> (id: Option<[u8; 32]>)
    ensures
        id.is_some() == (is_hex_text(text@) && text@.len() == 64),
        id.is_some() ==> id.unwrap()@ == hex_bytes(text@),
{
    match nostr_sdk::EventId::from_hex(text) {
        Ok(id) => Some(id.to_bytes()),
        Err(_) => None,
    }
}

/// Calls `FromBech32::from_bech32` for an event identifier. Trusted: the
/// result depends on the text alone.
#[verifier::external_body]
fn id_from_bech32(text: &str) -> (id: Option<[u8; 32]>)
    ensures
        id_bytes(id) == note_id(text@),
{
    match <nostr_sdk::EventId as nostr_sdk::FromBech32>::from_bech32(text) {
        Ok(id) => Some(id.to_bytes()),
        Err(_) => None,
    }
}

/// Reads an event identifier from its text: from 64 hexadecimal digits, or
/// else from bech32. `None` where the text is neither.
pub fn parse_event_id(text: &str) -> (id: Option<[u8; 32]>)
    ensures
        id_bytes(id) == if is_hex_text(text@) && text@.len() == 64 {
            Some(hex_bytes(text@))
        } else {
            note_id(text@)
        },
{
    match id_from_hex(text) {
        Some(id) => Some(id),
        None => id_from_bech32(text),
    }
}

impl TransportEvent {
    /// The event's identifier in hexadecimal text.
    pub fn id_hex(&self) -> (text: String)
        ensures
            text@ == hex_text(self.id@),
    {
        hex_encode(self.id.as_slice())
    }

    /// The author's public key in hexadecimal text.
    pub fn author_hex(&self) -> (text: String)
        ensures
            text@ == hex_text(self.author@),
    {
        hex_encode(self.author.as_slice())
    }

    /// Whether the event was written by the identity `me`.
    pub fn is_authored_by(&self, me: &[u8; 32]) -> (same: bool)
        ensures
            same == (self.author@ == me@),
    {
        same_key(&self.author, me)
    }
}

impl Rumor {
    /// Takes in an unsigned record as it came out of a gift wrap. The
    /// record is kept as it is.
    pub fn from_unsigned(unsigned: nostr_sdk::UnsignedEvent) -> (rumor: Rumor)
        ensures
            rumor.unsigned == unsigned,
    {
        Rumor { kind: unsigned_kind(&unsigned), unsigned }
    }

    /// Reads a rumor from the JSON text of a plain welcome's content, or
    /// `None` where the text holds no such record.
    pub fn parse(text: &str) -> (rumor: Option<Rumor>)
        ensures
            rumor.is_some() == holds_rumor(text@),
    {
        match unsigned_from_json(text) {
            Ok(unsigned) => Some(Rumor::from_unsigned(unsigned)),
            Err(_) => None,
        }
    }
}

/// Whether two keys or identifiers are the same, byte for byte.
pub fn same_key(a: &[u8; 32], b: &[u8; 32]) -> (same: bool)
    ensures
        same == (a@ == b@),
{
    let mut i: usize = 0;
    while i < 32
        invariant
            i <= 32,
            forall|j: int| 0 <= j < i ==> a@[j] == b@[j],
        decreases 32 - i,
    {
        if a[i] != b[i] {
            return false;
        }
        i = i + 1;
    }
    assert(a@ =~= b@);
    true
}

/// Classifies an event by its declared kind and, for a gift wrap, by the
/// kind of the rumor that opening it gave. A gift wrap that could not be
/// opened, or that holds anything but a welcome, is unrecognized.
pub fn classify(kind: u16, unwrap: &UnwrapOutcome) -> (class: ClassifiedEvent)
    ensures
        class == class_of(kind, inner_kind(*unwrap)),
{
    if kind == KIND_WELCOME {
        ClassifiedEvent::Welcome
    } else if kind == KIND_MLS_MESSAGE {
        ClassifiedEvent::ApplicationMessage
    } else if kind == KIND_GIFT_WRAP {
        match unwrap {
            UnwrapOutcome::Unwrapped { sender, rumor } => {
                if rumor.kind == KIND_WELCOME {
                    ClassifiedEvent::GiftWrappedWelcome
                } else {
                    ClassifiedEvent::Unrecognized
                }
            },
            _ => ClassifiedEvent::Unrecognized,
        }
    } else {
        ClassifiedEvent::Unrecognized
    }
}

/// Whether an event of this kind must be opened before it can be
/// classified: true of gift wraps alone.
pub fn needs_unwrap(kind: u16) -> (needed: bool)
    ensures
        needed == (kind == KIND_GIFT_WRAP),
{
    kind == KIND_GIFT_WRAP
}

} // verus!
