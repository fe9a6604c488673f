//! Planning a sync: which groups to ask for, from which point in time, and
//! the one filter that is handed to the transport.

use crate::text::texts;
use crate::cursor::CursorState;
use crate::engine::KnownGroup;
use crate::event::{TransportEvent, KIND_MLS_MESSAGE};
use crate::hexcode::{hex_encode, hex_text};
use crate::since::{parse_since, timestamp_of};
use vstd::prelude::*;

verus! {

/// The most events that one fetch asks for.
pub const FETCH_LIMIT: usize = 100;

/// The seconds after which a fetch is given up.
pub const FETCH_TIMEOUT_SECS: u64 = 10;

/// The filter of one fetch.
pub struct FetchFilter {
    /// The kind that an event must have.
    pub kind: u16,
    /// The groups, in hexadecimal text: an event must be tagged with one of
    /// them.
    pub group_ids: Vec<String>,
    /// The earliest creation time that an event may have; `None` where the
    /// whole available history is asked for.
    pub since: Option<u64>,
    /// The most events to return.
    pub limit: usize,
}

/// What a sync has to do.
pub enum SyncPlan {
    /// There is no group to sync: the result is empty, and nothing is
    /// fetched.
    Nothing,
    /// One fetch with this filter.
    Fetch(FetchFilter),
}

/// The transport identifiers of the known groups in hexadecimal text, in the
/// order of the groups.
pub open spec fn group_texts(groups: Seq<KnownGroup>) -> Seq<Seq<char>> {
    groups.map_values(|g: KnownGroup| hex_text(g.nostr_group_id@))
}

/// The groups that a sync is for: the one that was asked for, or else every
/// known group.
pub open spec fn targets_of(requested: Option<Seq<char>>, groups: Seq<KnownGroup>) -> Seq<
    Seq<char>,
> {
    match requested {
        Some(group) => seq![group],
        None => group_texts(groups),
    }
}

/// The earliest of the target groups' cursors. There is none where no group
/// is targeted, and none where a target group has no cursor yet: such a
/// group needs its whole history.
pub open spec fn least_cursor(cursors: Map<Seq<char>, u64>, targets: Seq<Seq<char>>) -> Option<
    u64,
>
    decreases targets.len(),
{
    if targets.len() == 0 {
        None
    } else if !cursors.contains_key(targets.last()) {
        None
    } else if targets.len() == 1 {
        Some(cursors[targets.last()])
    } else {
        match least_cursor(cursors, targets.drop_last()) {
            None => None,
            Some(least) => if cursors[targets.last()] < least {
                Some(cursors[targets.last()])
            } else {
                Some(least)
            },
        }
    }
}

/// The first second that a cursor has not consumed.
pub open spec fn next_unseen(cursor: u64) -> u64 {
    if cursor < u64::MAX {
        (cursor + 1) as u64
    } else {
        cursor
    }
}

/// The earliest creation time that a fetch asks for. An explicit lower
/// bound is taken as it is, whatever the cursors hold. Without one, the
/// fetch starts at the first second that the earliest target cursor has not
/// consumed; where a target has no cursor, it has no lower bound.
pub open spec fn fetch_since(
    explicit: Option<u64>,
    cursors: Map<Seq<char>, u64>,
    targets: Seq<Seq<char>>,
) -> Option<u64> {
    match explicit {
        Some(bound) => Some(bound),
        None => match least_cursor(cursors, targets) {
            Some(least) => Some(next_unseen(least)),
            None => None,
        },
    }
}

/// Whether the filter lets an event through, as far as kind and creation
/// time go.
pub open spec fn admits(filter: FetchFilter, event: TransportEvent) -> bool {
    &&& event.kind == filter.kind
    &&& match filter.since {
        Some(bound) => event.created_at >= bound,
        None => true,
    }
}

/// The explicit lower bound that an optional text gives: the timestamp it
/// stands for, and none where there is no text or the text is no timestamp.
pub open spec fn explicit_bound(since: Option<Seq<char>>) -> Option<u64> {
    match since {
        Some(text) => timestamp_of(text),
        None => None,
    }
}

/// The view of an optional text.
pub open spec fn text_of(text: Option<&str>) -> Option<Seq<char>> {
    match text {
        Some(t) => Some(t@),
        None => None,
    }
}

/// The groups that a sync is for: the one that was asked for, or else every
/// group that the engine knows, by its transport identifier.
pub fn resolve_targets(requested: Option<&str>, groups: &Vec<KnownGroup>) -> (targets: Vec<String>)
    ensures
        texts(targets@) == targets_of(text_of(requested), groups@),
{
    let mut targets: Vec<String> = Vec::new();
    match requested {
        Some(group) => {
            targets.push(group.to_owned());
            assert(texts(targets@) =~= seq![group@]);
        },
        None => {
            let mut i: usize = 0;
            while i < groups.len()
                invariant
                    i <= groups.len(),
                    targets@.len() == i,
                    forall|j: int|
                        0 <= j < i ==> (#[trigger] targets@[j])@ == hex_text(
                            groups@[j].nostr_group_id@,
                        ),
                decreases groups.len() - i,
            {
                targets.push(hex_encode(groups[i].nostr_group_id.as_slice()));
                i = i + 1;
            }
            assert(texts(targets@) =~= group_texts(groups@));
        },
    }
    targets
}

/// The earliest of the target groups' cursors, if every target has one.
pub fn min_cursor(cursors: &CursorState, targets: &Vec<String>) -> (least: Option<u64>)
    ensures
        least == least_cursor(cursors@, texts(targets@)),
{
    if targets.len() == 0 {
        return None;
    }
    let ghost all = texts(targets@);
    let mut least: Option<u64> = None;
    let mut i: usize = 0;
    while i < targets.len()
        invariant
            i <= targets.len(),
            all == texts(targets@),
            i == 0 ==> least.is_none(),
            i > 0 ==> least.is_some(),
            i > 0 ==> least == least_cursor(cursors@, all.take(i as int)),
        decreases targets.len() - i,
    {
        let ghost seen = all.take(i as int);
        let ghost longer = all.take(i + 1);
        proof {
            assert(longer.drop_last() =~= seen);
            assert(all[i as int] == targets@[i as int]@);
            assert(longer.last() == targets@[i as int]@);
            assert(longer.len() == i + 1);
            assert(seen.len() == i);
        }
        match cursors.get_cursor(targets[i].as_str()) {
            None => {
                proof {
                    lemma_missing_cursor(cursors@, all, i as int);
                }
                return None;
            },
            Some(cursor) => {
                least = match least {
                    None => Some(cursor),
                    Some(so_far) => if cursor < so_far {
                        Some(cursor)
                    } else {
                        Some(so_far)
                    },
                };
            },
        }
        i = i + 1;
    }
    proof {
        assert(all.take(targets.len() as int) =~= all);
    }
    least
}

/// A target without a cursor leaves the whole list without a least cursor.
proof fn lemma_missing_cursor(cursors: Map<Seq<char>, u64>, targets: Seq<Seq<char>>, i: int)
    requires
        0 <= i < targets.len(),
        !cursors.contains_key(targets[i]),
    ensures
        least_cursor(cursors, targets).is_none(),
    decreases targets.len(),
{
    if i < targets.len() - 1 {
        lemma_missing_cursor(cursors, targets.drop_last(), i);
    }
}

/// The explicit lower bound that the caller's text gives, if any.
pub fn read_since(since: Option<&str>) -> (bound: Option<u64>)
    ensures
        bound == explicit_bound(text_of(since)),
{
    match since {
        Some(text) => parse_since(text),
        None => None,
    }
}

/// The earliest creation time to ask the transport for.
pub fn since_bound(explicit: Option<u64>, cursors: &CursorState, targets: &Vec<String>) -> (bound:
    Option<u64>)
    ensures
        bound == fetch_since(explicit, cursors@, texts(targets@)),
{
    match explicit {
        Some(bound) => Some(bound),
        None => match min_cursor(cursors, targets) {
            Some(least) => Some(
                if least < u64::MAX {
                    least + 1
                } else {
                    least
                },
            ),
            None => None,
        },
    }
}

/// Plans a sync of the target groups. With no target there is nothing to
/// do, and nothing is fetched. Otherwise the plan is one fetch of
/// application messages that are tagged with any of the targets, from the
/// lower bound on, and capped at the fetch limit.
pub fn plan_sync(targets: Vec<String>, explicit: Option<u64>, cursors: &CursorState) -> (plan:
    SyncPlan)
    ensures
        targets@.len() == 0 ==> plan is Nothing,
        targets@.len() > 0 ==> plan is Fetch && plan->Fetch_0 == (FetchFilter {
            kind: KIND_MLS_MESSAGE,
            group_ids: targets,
            since: fetch_since(explicit, cursors@, texts(targets@)),
            limit: FETCH_LIMIT,
        }),
{
    if targets.len() == 0 {
        return SyncPlan::Nothing;
    }
    let since = since_bound(explicit, cursors, &targets);
    SyncPlan::Fetch(FetchFilter { kind: KIND_MLS_MESSAGE, group_ids: targets, since, limit: FETCH_LIMIT })
}

/// Whether the filter lets an event through, as far as kind and creation
/// time go.
pub fn filter_admits(filter: &FetchFilter, event: &TransportEvent) -> (admitted: bool)
    ensures
        admitted == admits(*filter, *event),
{
    event.kind == filter.kind && match filter.since {
        Some(bound) => event.created_at >= bound,
        None => true,
    }
}

/// The least cursor, where there is one, is the cursor of a target, and no
/// target's cursor is earlier. Where there is none, no group is targeted or
/// a target has no cursor.
pub proof fn lemma_least_cursor(cursors: Map<Seq<char>, u64>, targets: Seq<Seq<char>>)
    ensures
        match least_cursor(cursors, targets) {
            Some(least) => {
                &&& targets.len() > 0
                &&& exists|i: int|
                    0 <= i < targets.len() && cursors.contains_key(#[trigger] targets[i])
                        && cursors[targets[i]] == least
                &&& forall|i: int|
                    0 <= i < targets.len() ==> cursors.contains_key(#[trigger] targets[i])
                        && cursors[targets[i]] >= least
            },
            None => targets.len() == 0 || exists|i: int|
                0 <= i < targets.len() && !cursors.contains_key(#[trigger] targets[i]),
        },
    decreases targets.len(),
{
    if targets.len() == 0 {
    } else if !cursors.contains_key(targets.last()) {
        assert(!cursors.contains_key(targets[targets.len() - 1]));
    } else if targets.len() == 1 {
        assert(cursors[targets[0]] == cursors[targets.last()]);
    } else {
        let rest = targets.drop_last();
        lemma_least_cursor(cursors, rest);
        match least_cursor(cursors, rest) {
            None => {
                let i = choose|i: int| 0 <= i < rest.len() && !cursors.contains_key(#[trigger] rest[i]);
                assert(rest[i] == targets[i]);
            },
            Some(least) => {
                let i = choose|i: int|
                    0 <= i < rest.len() && cursors.contains_key(#[trigger] rest[i])
                        && cursors[rest[i]] == least;
                assert(rest[i] == targets[i]);
                let last = targets.len() - 1;
                assert(targets[last] == targets.last());
                assert forall|j: int| 0 <= j < targets.len() implies cursors.contains_key(
                    #[trigger] targets[j],
                ) && cursors[targets[j]] >= least_cursor(cursors, targets).unwrap() by {
                    if j < rest.len() {
                        assert(rest[j] == targets[j]);
                    }
                }
            },
        }
    }
}

/// An explicit lower bound overrides the cursors entirely: the fetch asks
/// from that bound on, whatever the cursor store holds.
pub proof fn lemma_explicit_since_wins(
    bound: u64,
    cursors: Map<Seq<char>, u64>,
    other_cursors: Map<Seq<char>, u64>,
    targets: Seq<Seq<char>>,
)
    ensures
        fetch_since(Some(bound), cursors, targets) == Some(bound),
        fetch_since(Some(bound), cursors, targets) == fetch_since(
            Some(bound),
            other_cursors,
            targets,
        ),
{
}

/// A fetch that is bounded by the cursors does not bring back what they
/// have consumed: where every target has a cursor, an event created no
/// later than the earliest of them is not let through, unless that cursor
/// stands at the last second there is.
pub proof fn lemma_consumed_not_admitted(
    filter: FetchFilter,
    cursors: Map<Seq<char>, u64>,
    targets: Seq<Seq<char>>,
    event: TransportEvent,
)
    requires
        filter.since == fetch_since(None, cursors, targets),
        least_cursor(cursors, targets).is_some(),
        least_cursor(cursors, targets).unwrap() < u64::MAX,
        event.created_at <= least_cursor(cursors, targets).unwrap(),
    ensures
        !admits(filter, event),
{
}

/// A target without a cursor is never skipped: the fetch then has no lower
/// bound.
pub proof fn lemma_new_group_fetches_all(
    cursors: Map<Seq<char>, u64>,
    targets: Seq<Seq<char>>,
    i: int,
)
    requires
        0 <= i < targets.len(),
        !cursors.contains_key(targets[i]),
    ensures
        fetch_since(None, cursors, targets).is_none(),
{
    lemma_missing_cursor(cursors, targets, i);
}

} // verus!
