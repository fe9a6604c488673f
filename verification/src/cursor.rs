//! The cursor store: for each group, the creation time of the latest
//! message that has been consumed.

use vstd::prelude::*;

verus! {

/// One stored cursor: a group's identifier in hexadecimal text and the
/// latest creation time, in seconds, consumed for that group.
#[derive(Debug)]
pub struct CursorEntry {
    pub group_id: String,
    pub timestamp: u64,
}

/// The cursors of all groups. Its model is a map from group identifier to
/// timestamp; no group is stored twice.
#[derive(Debug)]
pub struct CursorState {
    entries: Vec<CursorEntry>,
}

/// Whether some entry of `s` is for the group `key`.
pub closed spec fn holds_key(s: Seq<CursorEntry>, key: Seq<char>) -> bool {
    exists|i: int| 0 <= i < s.len() && (#[trigger] s[i]).group_id@ == key
}

/// The place of an entry for the group `key` in `s`.
pub closed spec fn place_of(s: Seq<CursorEntry>, key: Seq<char>) -> int {
    choose|i: int| 0 <= i < s.len() && (#[trigger] s[i]).group_id@ == key
}

/// No two entries of `s` are for the same group.
pub closed spec fn distinct_groups(s: Seq<CursorEntry>) -> bool {
    forall|i: int, j: int|
        0 <= i < j < s.len() ==> (#[trigger] s[i]).group_id@ != (#[trigger] s[j]).group_id@
}

/// The map that a list of entries with distinct groups stands for.
pub closed spec fn entries_map(s: Seq<CursorEntry>) -> Map<Seq<char>, u64> {
    Map::new(|key: Seq<char>| holds_key(s, key), |key: Seq<char>| s[place_of(s, key)].timestamp)
}

/// The cursor map after one update: the group's cursor becomes the later of
/// its stored value and `timestamp`; a group without a cursor gets
/// `timestamp`. Every other group keeps its cursor.
pub open spec fn advance(cursors: Map<Seq<char>, u64>, group: Seq<char>, timestamp: u64) -> Map<
    Seq<char>,
    u64,
> {
    if cursors.contains_key(group) && cursors[group] >= timestamp {
        cursors
    } else {
        cursors.insert(group, timestamp)
    }
}

/// `after` holds a cursor for every group of `before`, and none of them is
/// earlier than it was.
pub open spec fn never_behind(before: Map<Seq<char>, u64>, after: Map<Seq<char>, u64>) -> bool {
    forall|group: Seq<char>| #[trigger]
        before.contains_key(group) ==> after.contains_key(group) && before[group] <= after[group]
}

proof fn lemma_place(s: Seq<CursorEntry>, i: int)
    requires
        distinct_groups(s),
        0 <= i < s.len(),
    ensures
        holds_key(s, s[i].group_id@),
        place_of(s, s[i].group_id@) == i,
        entries_map(s).contains_key(s[i].group_id@),
        entries_map(s)[s[i].group_id@] == s[i].timestamp,
{
    let key = s[i].group_id@;
    assert(holds_key(s, key));
    let p = place_of(s, key);
    assert(0 <= p < s.len() && s[p].group_id@ == key);
    if p < i {
        assert(s[p].group_id@ != s[i].group_id@);
    } else if i < p {
        assert(s[i].group_id@ != s[p].group_id@);
    }
}

proof fn lemma_absent(s: Seq<CursorEntry>, key: Seq<char>)
    requires
        forall|i: int| 0 <= i < s.len() ==> (#[trigger] s[i]).group_id@ != key,
    ensures
        !entries_map(s).contains_key(key),
{
}

proof fn lemma_push(s: Seq<CursorEntry>, e: CursorEntry)
    requires
        distinct_groups(s),
        !entries_map(s).contains_key(e.group_id@),
    ensures
        distinct_groups(s.push(e)),
        entries_map(s.push(e)) == entries_map(s).insert(e.group_id@, e.timestamp),
{
    let t = s.push(e);
    assert forall|i: int, j: int| 0 <= i < j < t.len() implies (#[trigger] t[i]).group_id@ != (
    #[trigger] t[j]).group_id@ by {
        if j == s.len() {
            assert(t[i] == s[i]);
            if s[i].group_id@ == e.group_id@ {
                assert(holds_key(s, e.group_id@));
            }
        } else {
            assert(t[i] == s[i] && t[j] == s[j]);
        }
    }
    lemma_place(t, s.len() as int);
    let m = entries_map(s).insert(e.group_id@, e.timestamp);
    assert forall|key: Seq<char>| entries_map(t).contains_key(key) <==> m.contains_key(key) by {
        if holds_key(t, key) {
            let i = place_of(t, key);
            if i < s.len() {
                assert(s[i] == t[i]);
                assert(holds_key(s, key));
            }
        }
        if holds_key(s, key) {
            let i = place_of(s, key);
            assert(t[i] == s[i]);
            assert(holds_key(t, key));
        }
    }
    assert forall|key: Seq<char>| entries_map(t).contains_key(key) implies entries_map(t)[key]
        == m[key] by {
        let i = place_of(t, key);
        lemma_place(t, i);
        if i < s.len() {
            assert(t[i] == s[i]);
            lemma_place(s, i);
        }
    }
    assert(entries_map(t) =~= m);
}

proof fn lemma_replace(s: Seq<CursorEntry>, i: int, e: CursorEntry)
    requires
        distinct_groups(s),
        0 <= i < s.len(),
        e.group_id@ == s[i].group_id@,
    ensures
        distinct_groups(s.update(i, e)),
        entries_map(s.update(i, e)) == entries_map(s).insert(e.group_id@, e.timestamp),
{
    let t = s.update(i, e);
    assert forall|a: int, b: int| 0 <= a < b < t.len() implies (#[trigger] t[a]).group_id@ != (
    #[trigger] t[b]).group_id@ by {
        assert(t[a].group_id@ == s[a].group_id@);
        assert(t[b].group_id@ == s[b].group_id@);
    }
    let m = entries_map(s).insert(e.group_id@, e.timestamp);
    assert forall|key: Seq<char>| entries_map(t).contains_key(key) <==> m.contains_key(key) by {
        if holds_key(t, key) {
            let p = place_of(t, key);
            assert(t[p].group_id@ == s[p].group_id@);
            assert(holds_key(s, key));
        }
        if holds_key(s, key) {
            let p = place_of(s, key);
            assert(t[p].group_id@ == s[p].group_id@);
            assert(holds_key(t, key));
        }
    }
    assert forall|key: Seq<char>| entries_map(t).contains_key(key) implies entries_map(t)[key]
        == m[key] by {
        let p = place_of(t, key);
        lemma_place(t, p);
        if p != i {
            assert(t[p] == s[p]);
            lemma_place(s, p);
        }
    }
    assert(entries_map(t) =~= m);
}

impl View for CursorState {
    type V = Map<Seq<char>, u64>;

    closed spec fn view(&self) -> Map<Seq<char>, u64> {
        entries_map(self.entries@)
    }
}

impl CursorState {
    #[verifier::type_invariant]
    spec fn well_formed(self) -> bool {
        distinct_groups(self.entries@)
    }

    /// The store with no cursor, as it is when nothing was persisted.
    pub fn new() -> (state: CursorState)
        ensures
            state@ == Map::<Seq<char>, u64>::empty(),
    {
        let state = CursorState { entries: Vec::new() };
        proof {
            assert(state@ =~= Map::<Seq<char>, u64>::empty());
        }
        state
    }

    /// The place of the entry for `key`, if there is one.
    fn find(&self, key: &String) -> (found: Option<usize>)
        ensures
            match found {
                Some(i) => i < self.entries.len() && self.entries[i as int].group_id@ == key@,
                None => !self@.contains_key(key@),
            },
    {
        let mut i: usize = 0;
        while i < self.entries.len()
            invariant
                i <= self.entries.len(),
                forall|j: int| 0 <= j < i ==> (#[trigger] self.entries[j]).group_id@ != key@,
            decreases self.entries.len() - i,
        {
            if self.entries[i].group_id == *key {
                return Some(i);
            }
            i = i + 1;
        }
        proof {
            lemma_absent(self.entries@, key@);
        }
        None
    }

    /// The cursor of a group: the latest creation time consumed for it, or
    /// `None` where the group has no cursor yet.
    pub fn get_cursor(&self, group_id: &str) -> (cursor: Option<u64>)
        ensures
            cursor == if self@.contains_key(group_id@) {
                Some(self@[group_id@])
            } else {
                None
            },
    {
        let key = group_id.to_owned();
        match self.find(&key) {
            Some(i) => {
                proof {
                    use_type_invariant(self);
                    lemma_place(self.entries@, i as int);
                }
                Some(self.entries[i].timestamp)
            },
            None => None,
        }
    }

    /// Advances a group's cursor to `timestamp` unless the stored value is
    /// already as late. A stored cursor is never moved back, and no other
    /// group's cursor changes.
    pub fn update_cursor(&mut self, group_id: &str, timestamp: u64)
        ensures
            final(self)@ == advance(old(self)@, group_id@, timestamp),
            never_behind(old(self)@, final(self)@),
            final(self)@.contains_key(group_id@),
            final(self)@[group_id@] >= timestamp,
    {
        let key = group_id.to_owned();
        proof {
            use_type_invariant(&*self);
        }
        let found = self.find(&key);
        let mut entries: Vec<CursorEntry> = Vec::new();
        core::mem::swap(&mut self.entries, &mut entries);
        match found {
            Some(i) => {
                proof {
                    lemma_place(entries@, i as int);
                }
                if timestamp > entries[i].timestamp {
                    let entry = CursorEntry { group_id: key, timestamp };
                    proof {
                        lemma_replace(entries@, i as int, entry);
                    }
                    entries.set(i, entry);
                }
            },
            None => {
                let entry = CursorEntry { group_id: key, timestamp };
                proof {
                    lemma_push(entries@, entry);
                }
                entries.push(entry);
            },
        }
        core::mem::swap(&mut self.entries, &mut entries);
    }

    /// The number of groups that have a cursor.
    pub fn len(&self) -> (n: usize)
        ensures
            n == self@.dom().len(),
            self@.dom().finite(),
    {
        proof {
            use_type_invariant(self);
            lemma_count(self.entries@);
        }
        self.entries.len()
    }

    /// The stored cursors as a list, one entry for each group that has a
    /// cursor, for writing them out.
    pub fn entries(&self) -> (list: Vec<CursorEntry>)
        ensures
            list@.len() == self@.dom().len(),
            forall|i: int|
                0 <= i < list@.len() ==> self@.contains_key((#[trigger] list@[i]).group_id@)
                    && self@[list@[i].group_id@] == list@[i].timestamp,
            forall|i: int, j: int|
                0 <= i < j < list@.len() ==> (#[trigger] list@[i]).group_id@ != (
                #[trigger] list@[j]).group_id@,
    {
        proof {
            use_type_invariant(self);
            lemma_count(self.entries@);
        }
        let mut list: Vec<CursorEntry> = Vec::new();
        let mut i: usize = 0;
        while i < self.entries.len()
            invariant
                i <= self.entries.len(),
                list@.len() == i,
                distinct_groups(self.entries@),
                forall|j: int|
                    0 <= j < i ==> (#[trigger] list@[j]).group_id@ == self.entries[j].group_id@
                        && list@[j].timestamp == self.entries[j].timestamp,
            decreases self.entries.len() - i,
        {
            let entry = CursorEntry {
                group_id: self.entries[i].group_id.clone(),
                timestamp: self.entries[i].timestamp,
            };
            list.push(entry);
            i = i + 1;
        }
        proof {
            assert forall|k: int| 0 <= k < list@.len() implies self@.contains_key(
                (#[trigger] list@[k]).group_id@,
            ) && self@[list@[k].group_id@] == list@[k].timestamp by {
                lemma_place(self.entries@, k);
            }
        }
        list
    }
}

/// A list of entries with distinct groups has as many entries as its map
/// has groups.
proof fn lemma_count(s: Seq<CursorEntry>)
    requires
        distinct_groups(s),
    ensures
        entries_map(s).dom().finite(),
        entries_map(s).dom().len() == s.len(),
    decreases s.len(),
{
    if s.len() == 0 {
        assert(entries_map(s).dom() =~= Set::<Seq<char>>::empty());
    } else {
        let head = s.drop_last();
        let e = s.last();
        assert forall|i: int, j: int| 0 <= i < j < head.len() implies (#[trigger] head[i]).group_id@
            != (#[trigger] head[j]).group_id@ by {
            assert(head[i] == s[i] && head[j] == s[j]);
        }
        lemma_count(head);
        if holds_key(head, e.group_id@) {
            let p = place_of(head, e.group_id@);
            assert(s[p] == head[p]);
            assert(s[p].group_id@ != s[s.len() - 1].group_id@);
        }
        lemma_push(head, e);
        assert(head.push(e) =~= s);
        assert(entries_map(s).dom() =~= entries_map(head).dom().insert(e.group_id@));
    }
}

/// An update never moves any cursor back: every group that had a cursor
/// still has one, and it is at least as late as before.
pub proof fn lemma_advance_never_behind(cursors: Map<Seq<char>, u64>, group: Seq<char>, timestamp: u64)
    ensures
        never_behind(cursors, advance(cursors, group, timestamp)),
        advance(cursors, group, timestamp).contains_key(group),
        advance(cursors, group, timestamp)[group] >= timestamp,
{
}

/// Being never behind carries over a chain of updates.
pub proof fn lemma_never_behind_transitive(
    a: Map<Seq<char>, u64>,
    b: Map<Seq<char>, u64>,
    c: Map<Seq<char>, u64>,
)
    requires
        never_behind(a, b),
        never_behind(b, c),
    ensures
        never_behind(a, c),
{
    assert forall|group: Seq<char>| #[trigger] a.contains_key(group) implies c.contains_key(group)
        && a[group] <= c[group] by {
        assert(b.contains_key(group));
    }
}

} // verus!
