//! Welcomes: listing the pending invitations, and the pipeline that turns
//! one of them into a joined group.

use crate::engine::{GroupEngine, WelcomeDescriptor};
use crate::event::{
    class_of, classify, holds_rumor, inner_kind, ClassifiedEvent, Rumor, TransportEvent,
    UnwrapOutcome, KIND_GIFT_WRAP, KIND_WELCOME,
};
use crate::hexcode::{hex_encode, hex_text};
use crate::identity::{npub_text, show_key};
use crate::sorting::{stable_sort, stably_sorted, Keyed};
use vstd::prelude::*;

verus! {

/// The most events that one fetch of welcomes asks for.
pub const WELCOME_FETCH_LIMIT: usize = 50;

/// The filter of one fetch of welcomes: events of one kind that are
/// addressed to the local identity.
pub struct WelcomeFilter {
    pub kind: u16,
    pub recipient: [u8; 32],
    pub limit: usize,
}

/// A fetched event together with what came of opening it.
pub struct Candidate {
    pub event: TransportEvent,
    pub unwrap: UnwrapOutcome,
}

/// One pending welcome, as it is listed.
pub struct WelcomeInfo {
    /// The identifier of the event, in hexadecimal.
    pub event_id: String,
    /// The sender's public key, in hexadecimal.
    pub from_pubkey: String,
    /// The sender's public key, in bech32.
    pub from_npub: String,
    /// The creation time of the event, in seconds.
    pub created_at: u64,
    /// Whether the welcome came in a gift wrap.
    pub is_gift_wrapped: bool,
}

/// The mathematical content of a listed welcome.
pub struct WelcomeView {
    pub event_id: Seq<char>,
    pub from_pubkey: Seq<char>,
    pub from_npub: Seq<char>,
    pub created_at: u64,
    pub is_gift_wrapped: bool,
}

impl View for WelcomeInfo {
    type V = WelcomeView;

    open spec fn view(&self) -> WelcomeView {
        WelcomeView {
            event_id: self.event_id@,
            from_pubkey: self.from_pubkey@,
            from_npub: self.from_npub@,
            created_at: self.created_at,
            is_gift_wrapped: self.is_gift_wrapped,
        }
    }
}

impl Keyed for WelcomeInfo {
    /// Welcomes are listed newest first: the later a welcome was created,
    /// the smaller its key.
    open spec fn sort_key(&self) -> u64 {
        (u64::MAX - self.created_at) as u64
    }

    fn key(&self) -> (k: u64) {
        u64::MAX - self.created_at
    }
}

/// Why an event did not lead to a joined group.
pub enum WelcomeError {
    /// The event is neither a welcome nor a gift wrap; it has this kind.
    NotAWelcome(u16),
    /// The gift wrap could not be opened.
    UnwrapFailed,
    /// The gift wrap holds a rumor of this kind, which is no welcome.
    UnexpectedInnerKind(u16),
    /// The content of the plain welcome is no rumor.
    UnparseableContent,
    /// The engine rejected the welcome, for the reason given.
    ProcessFailed(String),
    /// The engine could not commit the join, for the reason given.
    AcceptFailed(String),
}

/// The group that was joined, as it is reported.
pub struct AcceptOutput {
    /// The transport group identifier, in hexadecimal.
    pub nostr_group_id: String,
    /// The group's name.
    pub group_name: String,
    /// The number of members.
    pub member_count: u32,
    /// The identifier of the welcome event, in hexadecimal.
    pub event_id: String,
}

/// The views of a list of welcomes.
pub open spec fn welcome_views(list: Seq<WelcomeInfo>) -> Seq<WelcomeView> {
    list.map_values(|w: WelcomeInfo| w@)
}

/// The class of a candidate.
pub open spec fn candidate_class(candidate: Candidate) -> ClassifiedEvent {
    class_of(candidate.event.kind, inner_kind(candidate.unwrap))
}

/// The sender that opening a gift wrap revealed.
pub open spec fn revealed_sender(unwrap: UnwrapOutcome) -> Seq<u8> {
    match unwrap {
        UnwrapOutcome::Unwrapped { sender, rumor } => sender@,
        _ => Seq::empty(),
    }
}

/// The listing of a candidate: a plain welcome is listed under the author of
/// the event, a gift-wrapped welcome under the sender that the envelope
/// revealed, and nothing else is listed.
pub open spec fn listed(candidate: Candidate) -> Option<WelcomeView> {
    match candidate_class(candidate) {
        ClassifiedEvent::Welcome => Some(
            WelcomeView {
                event_id: hex_text(candidate.event.id@),
                from_pubkey: hex_text(candidate.event.author@),
                from_npub: npub_text(candidate.event.author@),
                created_at: candidate.event.created_at,
                is_gift_wrapped: false,
            },
        ),
        ClassifiedEvent::GiftWrappedWelcome => Some(
            WelcomeView {
                event_id: hex_text(candidate.event.id@),
                from_pubkey: hex_text(revealed_sender(candidate.unwrap)),
                from_npub: npub_text(revealed_sender(candidate.unwrap)),
                created_at: candidate.event.created_at,
                is_gift_wrapped: true,
            },
        ),
        _ => None,
    }
}

/// The welcomes among the candidates, in the order of the candidates.
pub open spec fn listed_all(candidates: Seq<Candidate>) -> Seq<WelcomeView>
    decreases candidates.len(),
{
    if candidates.len() == 0 {
        Seq::empty()
    } else {
        let before = listed_all(candidates.drop_last());
        match listed(candidates.last()) {
            Some(welcome) => before.push(welcome),
            None => before,
        }
    }
}

/// The view of an optional welcome.
pub open spec fn welcome_view_of(welcome: Option<WelcomeInfo>) -> Option<WelcomeView> {
    match welcome {
        Some(w) => Some(w@),
        None => None,
    }
}

/// The rumor that an event gives for the engine, or the reason why it gives
/// none: the rumor inside a gift wrap, if it is a welcome; for a plain
/// welcome, what its content holds; and an error for every other kind.
pub open spec fn rumor_of(
    kind: u16,
    unwrap: UnwrapOutcome,
    parsed: Option<Rumor>,
) -> Result<Rumor, WelcomeError> {
    if kind == KIND_GIFT_WRAP {
        match unwrap {
            UnwrapOutcome::Unwrapped { sender, rumor } => if rumor.kind == KIND_WELCOME {
                Ok(rumor)
            } else {
                Err(WelcomeError::UnexpectedInnerKind(rumor.kind))
            },
            _ => Err(WelcomeError::UnwrapFailed),
        }
    } else if kind == KIND_WELCOME {
        match parsed {
            Some(rumor) => Ok(rumor),
            None => Err(WelcomeError::UnparseableContent),
        }
    } else {
        Err(WelcomeError::NotAWelcome(kind))
    }
}

/// What is reported of a joined group: the transport identifier, the name
/// and the member count of the processed welcome, and the identifier of the
/// welcome event.
pub open spec fn reports(output: AcceptOutput, descriptor: WelcomeDescriptor) -> bool {
    &&& output.nostr_group_id@ == hex_text(descriptor.nostr_group_id@)
    &&& output.group_name@ == descriptor.group_name@
    &&& output.member_count == descriptor.member_count
    &&& output.event_id@ == hex_text(descriptor.event_id@)
}

/// The two filters by which pending welcomes are fetched: plain welcomes and
/// gift wraps that are addressed to `me`.
pub fn welcome_filters(me: &[u8; 32]) -> (filters: (WelcomeFilter, WelcomeFilter))
    ensures
        filters.0 == (WelcomeFilter { kind: KIND_WELCOME, recipient: *me, limit: WELCOME_FETCH_LIMIT }),
        filters.1 == (WelcomeFilter {
            kind: KIND_GIFT_WRAP,
            recipient: *me,
            limit: WELCOME_FETCH_LIMIT,
        }),
{
    (
        WelcomeFilter { kind: KIND_WELCOME, recipient: *me, limit: WELCOME_FETCH_LIMIT },
        WelcomeFilter { kind: KIND_GIFT_WRAP, recipient: *me, limit: WELCOME_FETCH_LIMIT },
    )
}

/// The listing of one candidate, if it is a welcome.
pub fn list_candidate(candidate: &Candidate) -> (welcome: Option<WelcomeInfo>)
    ensures
        welcome_view_of(welcome) == listed(*candidate),
{
    match classify(candidate.event.kind, &candidate.unwrap) {
        ClassifiedEvent::Welcome => {
            let from = show_key(&candidate.event.author);
            Some(
                WelcomeInfo {
                    event_id: candidate.event.id_hex(),
                    from_pubkey: from.hex,
                    from_npub: from.npub,
                    created_at: candidate.event.created_at,
                    is_gift_wrapped: false,
                },
            )
        },
        ClassifiedEvent::GiftWrappedWelcome => {
            match &candidate.unwrap {
                UnwrapOutcome::Unwrapped { sender, rumor } => {
                    let from = show_key(sender);
                    Some(
                        WelcomeInfo {
                            event_id: candidate.event.id_hex(),
                            from_pubkey: from.hex,
                            from_npub: from.npub,
                            created_at: candidate.event.created_at,
                            is_gift_wrapped: true,
                        },
                    )
                },
                _ => None,
            }
        },
        _ => None,
    }
}

/// Lists the pending welcomes among the fetched events, newest first;
/// welcomes of the same second stay in the order in which they were given.
/// A gift wrap that could not be opened, or that holds anything but a
/// welcome, is left out, and so is every event of another kind; none of
/// them stops the listing.
pub fn list_welcomes(candidates: &Vec<Candidate>) -> (welcomes: Vec<WelcomeInfo>)
    ensures
        exists|found: Seq<WelcomeInfo>|
            welcome_views(found) == listed_all(candidates@) && #[trigger] stably_sorted(
                found,
                welcomes@,
            ),
{
    let mut found: Vec<WelcomeInfo> = Vec::new();
    let mut i: usize = 0;
    proof {
        assert(welcome_views(found@) =~= Seq::<WelcomeView>::empty());
        assert(candidates@.take(0) =~= Seq::<Candidate>::empty());
    }
    while i < candidates.len()
        invariant
            i <= candidates.len(),
            welcome_views(found@) == listed_all(candidates@.take(i as int)),
        decreases candidates.len() - i,
    {
        let ghost views = welcome_views(found@);
        proof {
            assert(candidates@.take(i + 1).drop_last() =~= candidates@.take(i as int));
            assert(candidates@.take(i + 1).last() == candidates@[i as int]);
        }
        match list_candidate(&candidates[i]) {
            Some(welcome) => {
                found.push(welcome);
                proof {
                    assert(welcome_views(found@) =~= views.push(welcome@));
                }
            },
            None => {},
        }
        i = i + 1;
    }
    proof {
        assert(candidates@.take(candidates@.len() as int) =~= candidates@);
    }
    let ghost unsorted = found@;
    let welcomes = stable_sort(found);
    assert(welcome_views(unsorted) == listed_all(candidates@) && stably_sorted(unsorted, welcomes@));
    welcomes
}

/// The first step of joining: finds the rumor that the event carries. A
/// gift wrap must have been opened and must hold a welcome; a plain
/// welcome's content is read as a rumor; an event of any other kind is
/// rejected.
pub fn welcome_rumor(event: &TransportEvent, unwrap: UnwrapOutcome) -> (found: Result<
    Rumor,
    WelcomeError,
>)
    ensures
        event.kind != KIND_WELCOME ==> found == rumor_of(event.kind, unwrap, None),
        event.kind == KIND_WELCOME ==> (found is Ok) == holds_rumor(event.content@),
        event.kind == KIND_WELCOME && found is Err ==> found->Err_0 is UnparseableContent,
{
    let parsed = if event.kind == KIND_WELCOME {
        Rumor::parse(event.content.as_str())
    } else {
        None
    };
    select_rumor(event.kind, unwrap, parsed)
}

/// Decides on the rumor of an event, given what opening the event gave and
/// what reading its content gave.
pub fn select_rumor(kind: u16, unwrap: UnwrapOutcome, parsed: Option<Rumor>) -> (found: Result<
    Rumor,
    WelcomeError,
>)
    ensures
        found == rumor_of(kind, unwrap, parsed),
{
    if kind == KIND_GIFT_WRAP {
        match unwrap {
            UnwrapOutcome::Unwrapped { sender, rumor } => {
                if rumor.kind == KIND_WELCOME {
                    Ok(rumor)
                } else {
                    Err(WelcomeError::UnexpectedInnerKind(rumor.kind))
                }
            },
            _ => Err(WelcomeError::UnwrapFailed),
        }
    } else if kind == KIND_WELCOME {
        match parsed {
            Some(rumor) => Ok(rumor),
            None => Err(WelcomeError::UnparseableContent),
        }
    } else {
        Err(WelcomeError::NotAWelcome(kind))
    }
}

/// What is reported of the group that a processed welcome stands for.
pub fn accept_output(descriptor: &WelcomeDescriptor) -> (output: AcceptOutput)
    ensures
        reports(output, *descriptor),
{
    AcceptOutput {
        nostr_group_id: hex_encode(descriptor.nostr_group_id.as_slice()),
        group_name: descriptor.group_name.clone(),
        member_count: descriptor.member_count,
        event_id: hex_encode(descriptor.event_id.as_slice()),
    }
}

/// The second step of joining: hands the rumor to the engine, which
/// validates it. Nothing is joined yet.
pub fn process_welcome(engine: &GroupEngine, event: &TransportEvent, rumor: &Rumor) -> (processed:
    Result<WelcomeDescriptor, WelcomeError>)
    ensures
        processed is Ok ==> processed->Ok_0.event_id == event.id,
        processed is Err ==> processed->Err_0 is ProcessFailed,
{
    match engine.process_welcome(&event.id, rumor) {
        Ok(descriptor) => Ok(descriptor),
        Err(reason) => Err(WelcomeError::ProcessFailed(reason)),
    }
}

/// The third step of joining: commits the join of a processed welcome.
/// Where the engine accepts, the joined group is reported with the
/// transport identifier, name and member count of the processed welcome.
pub fn accept_welcome(engine: &GroupEngine, descriptor: &WelcomeDescriptor) -> (accepted: Result<
    AcceptOutput,
    WelcomeError,
>)
    ensures
        accepted is Ok ==> reports(accepted->Ok_0, *descriptor),
        accepted is Err ==> accepted->Err_0 is AcceptFailed,
{
    match engine.accept_welcome(descriptor) {
        Ok(()) => Ok(accept_output(descriptor)),
        Err(reason) => Err(WelcomeError::AcceptFailed(reason)),
    }
}

/// Joins the group that a welcome event invites to: finds the rumor, has the
/// engine process it, and then has the engine accept it, each step only
/// after the one before has succeeded.
pub fn join_group(engine: &GroupEngine, event: &TransportEvent, unwrap: UnwrapOutcome) -> (joined:
    Result<AcceptOutput, WelcomeError>)
    ensures
        event.kind != KIND_WELCOME && rumor_of(event.kind, unwrap, None) is Err ==> joined is Err
            && joined->Err_0 == rumor_of(event.kind, unwrap, None)->Err_0,
        event.kind == KIND_WELCOME && !holds_rumor(event.content@) ==> joined is Err
            && joined->Err_0 is UnparseableContent,
        joined is Ok ==> joined->Ok_0.event_id@ == hex_text(event.id@),
        joined is Ok ==> class_of(event.kind, inner_kind(unwrap)) == ClassifiedEvent::Welcome
            || class_of(event.kind, inner_kind(unwrap)) == ClassifiedEvent::GiftWrappedWelcome,
        joined is Err && (event.kind == KIND_WELCOME ==> holds_rumor(event.content@)) && (
        event.kind != KIND_WELCOME ==> rumor_of(event.kind, unwrap, None) is Ok) ==> (
        joined->Err_0 is ProcessFailed || joined->Err_0 is AcceptFailed),
{
    let rumor = match welcome_rumor(event, unwrap) {
        Ok(rumor) => rumor,
        Err(error) => {
            return Err(error);
        },
    };
    let descriptor = match process_welcome(engine, event, &rumor) {
        Ok(descriptor) => descriptor,
        Err(error) => {
            return Err(error);
        },
    };
    accept_welcome(engine, &descriptor)
}

/// Only welcomes are listed: every listed welcome comes from a candidate
/// that is a plain welcome or a gift wrap holding a welcome, and carries
/// that event's identifier and creation time.
pub proof fn lemma_listed_are_welcomes(candidates: Seq<Candidate>, j: int) -> (i: int)
    requires
        0 <= j < listed_all(candidates).len(),
    ensures
        0 <= i < candidates.len(),
        listed(candidates[i]) == Some(listed_all(candidates)[j]),
        candidate_class(candidates[i]) == ClassifiedEvent::Welcome || candidate_class(
            candidates[i],
        ) == ClassifiedEvent::GiftWrappedWelcome,
        listed_all(candidates)[j].event_id == hex_text(candidates[i].event.id@),
    decreases candidates.len(),
{
    let before = listed_all(candidates.drop_last());
    if j < before.len() {
        let i = lemma_listed_are_welcomes(candidates.drop_last(), j);
        assert(candidates.drop_last()[i] == candidates[i]);
        i
    } else {
        assert(candidates.last() == candidates[candidates.len() - 1]);
        candidates.len() - 1
    }
}

/// A gift wrap whose rumor is no welcome is left out of the listing, and so
/// is one that could not be opened.
pub proof fn lemma_other_gift_wraps_are_dropped(candidate: Candidate)
    requires
        candidate.event.kind == KIND_GIFT_WRAP,
        inner_kind(candidate.unwrap) != Some(KIND_WELCOME),
    ensures
        listed(candidate).is_none(),
        rumor_of(candidate.event.kind, candidate.unwrap, None) is Err,
{
}

} // verus!
