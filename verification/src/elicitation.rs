//! Elicitation state for source-control dialogs: pending dialogs keyed by a
//! UUID, each expiring five minutes after it was stored.
use vstd::prelude::*;
use crate::deps::{new_uuid_v4, is_hyphenated_uuid, instant_now, nanos_since};

verus! {

/// How long a pending elicitation stays valid, in nanoseconds (5 minutes).
pub const EXPIRY_NANOS: u64 = 300000000000;

/// What to resume when the user answers.
#[derive(PartialEq, Eq, Structural, Clone, Copy)]
pub enum ElicitationAction {
    /// Resume an iris_doc(mode=put) write
    Put,
    /// Resume an iris_source_control execute action
    ScmExecute,
}

/// A dialog waiting for the user's answer.
pub struct PendingElicitation {
    pub id: String,
    pub document: String,
    pub action: ElicitationAction,
    /// Document content to write on resume (Put only)
    pub content: Option<String>,
    /// SCM action id to execute on resume (ScmExecute only)
    pub scm_action_id: Option<String>,
    pub namespace: String,
    /// When the dialog expires, in nanoseconds on the store's clock.
    pub expires_at: u64,
}

fn clone_opt(o: &Option<String>) -> (r: Option<String>)
    ensures
        r == *o,
{
    match o {
        Some(s) => Some(s.clone()),
        None => None,
    }
}

impl PendingElicitation {
    /// An identical copy.
    pub fn duplicate(&self) -> (r: PendingElicitation)
        ensures
            r == *self,
    {
        PendingElicitation {
            id: self.id.clone(),
            document: self.document.clone(),
            action: self.action,
            content: clone_opt(&self.content),
            scm_action_id: clone_opt(&self.scm_action_id),
            namespace: self.namespace.clone(),
            expires_at: self.expires_at,
        }
    }
}

/// No two entries share an id.
pub open spec fn unique_ids(s: Seq<PendingElicitation>) -> bool {
    forall|i: int, j: int| 0 <= i < j < s.len() ==> s[i].id@ != s[j].id@
}

/// The entries as a map from id to entry.
pub open spec fn entries_map(s: Seq<PendingElicitation>) -> Map<Seq<char>, PendingElicitation>
    decreases s.len(),
{
    if s.len() == 0 {
        Map::empty()
    } else {
        entries_map(s.drop_last()).insert(s.last().id@, s.last())
    }
}

/// An entry is expired at `now` when `now` is past its expiry.
pub open spec fn is_expired(e: PendingElicitation, now: u64) -> bool {
    now > e.expires_at
}

/// The entries of `m` that are still valid at `now`.
pub open spec fn live_at(m: Map<Seq<char>, PendingElicitation>, now: u64) -> Map<
    Seq<char>,
    PendingElicitation,
> {
    Map::new(|k: Seq<char>| m.contains_key(k) && !is_expired(m[k], now), |k: Seq<char>| m[k])
}

/// What looking up `id` at `now` answers, and the entries it leaves: nothing
/// for a missing id; nothing for an expired entry, which is dropped;
/// otherwise the entry, the store unchanged.
pub open spec fn lookup_s(m: Map<Seq<char>, PendingElicitation>, id: Seq<char>, now: u64) -> (
    Option<PendingElicitation>,
    Map<Seq<char>, PendingElicitation>,
) {
    if !m.contains_key(id) {
        (None, m)
    } else if is_expired(m[id], now) {
        (None, m.remove(id))
    } else {
        (Some(m[id]), m)
    }
}

/// A read gives back a write: an entry just stored is what a lookup of its
/// id answers until it expires, and the lookup leaves the store as it was.
pub proof fn lemma_lookup_after_insert(m: Map<Seq<char>, PendingElicitation>, e: PendingElicitation, now: u64)
    requires
        !is_expired(e, now),
    ensures
        lookup_s(m.insert(e.id@, e), e.id@, now) == (Some(e), m.insert(e.id@, e)),
{
}

/// An expired entry is answered as missing and is dropped, so every later
/// lookup of its id answers nothing.
pub proof fn lemma_expired_lookup_drops(
    m: Map<Seq<char>, PendingElicitation>,
    id: Seq<char>,
    now: u64,
    later: u64,
)
    requires
        m.contains_key(id),
        is_expired(m[id], now),
    ensures
        lookup_s(m, id, now).0 is None,
        !lookup_s(m, id, now).1.contains_key(id),
        lookup_s(lookup_s(m, id, now).1, id, later).0 is None,
{
}

/// A lookup never adds entries, and leaves every other entry as it was.
pub proof fn lemma_lookup_keeps_others(
    m: Map<Seq<char>, PendingElicitation>,
    id: Seq<char>,
    other: Seq<char>,
    now: u64,
)
    requires
        other != id,
    ensures
        lookup_s(m, id, now).1.dom().subset_of(m.dom()),
        lookup_s(m, id, now).1.contains_key(other) == m.contains_key(other),
        m.contains_key(other) ==> lookup_s(m, id, now).1[other] == m[other],
{
}

proof fn lemma_entries_map_finite(s: Seq<PendingElicitation>)
    ensures
        entries_map(s).dom().finite(),
    decreases s.len(),
{
    if s.len() > 0 {
        lemma_entries_map_finite(s.drop_last());
    }
}

/// The ids of `m`'s entries that are expired at `now`.
pub open spec fn expired_ids(m: Map<Seq<char>, PendingElicitation>, now: u64) -> Set<Seq<char>> {
    m.dom().filter(|k: Seq<char>| is_expired(m[k], now))
}

proof fn lemma_sweep_count(m: Map<Seq<char>, PendingElicitation>, now: u64)
    requires
        m.dom().finite(),
    ensures
        live_at(m, now).dom().finite(),
        m.dom().len() == live_at(m, now).dom().len() + expired_ids(m, now).len(),
{
    let live = live_at(m, now).dom();
    let dead = expired_ids(m, now);
    assert(live =~= m.dom().filter(|k: Seq<char>| !is_expired(m[k], now)));
    assert(live + dead =~= m.dom());
    vstd::set_lib::lemma_set_disjoint_lens(live, dead);
}

proof fn lemma_entries_map(s: Seq<PendingElicitation>)
    requires
        unique_ids(s),
    ensures
        forall|i: int|
            0 <= i < s.len() ==> entries_map(s).contains_key(#[trigger] s[i].id@) && entries_map(
                s,
            )[s[i].id@] == s[i],
        forall|k: Seq<char>|
            #[trigger] entries_map(s).contains_key(k) ==> exists|i: int|
                0 <= i < s.len() && s[i].id@ == k,
        entries_map(s).dom().finite(),
        entries_map(s).dom().len() == s.len(),
    decreases s.len(),
{
    if s.len() > 0 {
        let d = s.drop_last();
        assert(unique_ids(d));
        lemma_entries_map(d);
        assert forall|i: int| 0 <= i < s.len() implies entries_map(s).contains_key(
            #[trigger] s[i].id@,
        ) && entries_map(s)[s[i].id@] == s[i] by {
            if i < s.len() - 1 {
                assert(s[i] == d[i]);
            }
        }
        assert forall|k: Seq<char>| #[trigger] entries_map(s).contains_key(k) implies exists|i: int|
            0 <= i < s.len() && s[i].id@ == k by {
            if k != s.last().id@ {
                assert(entries_map(d).contains_key(k));
                let j = choose|j: int| 0 <= j < d.len() && d[j].id@ == k;
                assert(s[j] == d[j]);
            } else {
                assert(s[s.len() - 1].id@ == k);
            }
        }
        assert(!entries_map(d).dom().contains(s.last().id@)) by {
            if entries_map(d).dom().contains(s.last().id@) {
                let j = choose|j: int| 0 <= j < d.len() && d[j].id@ == s.last().id@;
                assert(s[j] == d[j]);
            }
        }
        assert(entries_map(s).dom() == entries_map(d).dom().insert(s.last().id@));
    }
}

proof fn lemma_entries_map_remove(s: Seq<PendingElicitation>, i: int)
    requires
        unique_ids(s),
        0 <= i < s.len(),
    ensures
        unique_ids(s.remove(i)),
        entries_map(s.remove(i)) == entries_map(s).remove(s[i].id@),
    decreases s.len(),
{
    let d = s.drop_last();
    assert(unique_ids(d));
    lemma_entries_map(d);
    assert(unique_ids(s.remove(i))) by {
        assert forall|a: int, b: int| 0 <= a < b < s.remove(i).len() implies s.remove(i)[a].id@
            != s.remove(i)[b].id@ by {
            let a2 = if a < i {
                a
            } else {
                a + 1
            };
            let b2 = if b < i {
                b
            } else {
                b + 1
            };
            assert(s.remove(i)[a] == s[a2]);
            assert(s.remove(i)[b] == s[b2]);
        }
    }
    if i == s.len() - 1 {
        assert(s.remove(i) == d);
        assert(!entries_map(d).contains_key(s.last().id@)) by {
            if entries_map(d).contains_key(s.last().id@) {
                let j = choose|j: int| 0 <= j < d.len() && d[j].id@ == s.last().id@;
                assert(s[j] == d[j]);
            }
        }
        assert(entries_map(s).remove(s[i].id@) =~= entries_map(d));
    } else {
        lemma_entries_map_remove(d, i);
        assert(s.remove(i).drop_last() == d.remove(i));
        assert(s.remove(i).last() == s.last());
        assert(s[i] == d[i]);
        assert(s[i].id@ != s.last().id@);
        assert(entries_map(s.remove(i)) =~= entries_map(s).remove(s[i].id@));
    }
}

/// Position of the entry with this id.
fn position(entries: &Vec<PendingElicitation>, id: &str) -> (r: Option<usize>)
    ensures
        r matches Some(i) ==> i < entries@.len() && entries@[i as int].id@ == id@,
        r is None ==> forall|i: int| 0 <= i < entries@.len() ==> entries@[i].id@ != id@,
{
    let mut i: usize = 0;
    while i < entries.len()
        invariant
            0 <= i <= entries@.len(),
            forall|j: int| 0 <= j < i ==> entries@[j].id@ != id@,
        decreases entries.len() - i,
    {
        if crate::text::str_eq(entries[i].id.as_str(), id) {
            return Some(i);
        }
        i = i + 1;
    }
    None
}

fn insert_into(entries: &mut Vec<PendingElicitation>, entry: PendingElicitation)
    requires
        unique_ids(old(entries)@),
    ensures
        unique_ids(final(entries)@),
        entries_map(final(entries)@) == entries_map(old(entries)@).insert(entry.id@, entry),
{
    proof {
        lemma_entries_map(entries@);
    }
    match position(entries, entry.id.as_str()) {
        Some(i) => {
            proof {
                lemma_entries_map_remove(entries@, i as int);
            }
            let ghost before = entries@;
            entries.remove(i);
            let ghost mid = entries@;
            proof {
                lemma_entries_map(mid);
            }
            entries.push(entry);
            assert(entries@.drop_last() == mid);
            assert(unique_ids(entries@)) by {
                assert forall|a: int, b: int| 0 <= a < b < entries@.len() implies entries@[a].id@
                    != entries@[b].id@ by {
                    if b == entries@.len() - 1 {
                        assert(entries@[a] == mid[a]);
                        assert(entries_map(mid).contains_key(mid[a].id@));
                    } else {
                        assert(entries@[a] == mid[a]);
                        assert(entries@[b] == mid[b]);
                    }
                }
            }
            assert(entries_map(entries@) =~= entries_map(before).insert(entry.id@, entry));
        },
        None => {
            let ghost before = entries@;
            entries.push(entry);
            assert(entries@.drop_last() == before);
            assert(unique_ids(entries@)) by {
                assert forall|a: int, b: int| 0 <= a < b < entries@.len() implies entries@[a].id@
                    != entries@[b].id@ by {
                    assert(entries@[a] == before[a] || a == entries@.len() - 1);
                    if b < entries@.len() - 1 {
                        assert(entries@[b] == before[b]);
                    }
                }
            }
        },
    }
}

fn remove_at(entries: &mut Vec<PendingElicitation>, i: usize)
    requires
        unique_ids(old(entries)@),
        i < old(entries)@.len(),
    ensures
        final(entries)@ == old(entries)@.remove(i as int),
        unique_ids(final(entries)@),
        entries_map(final(entries)@) == entries_map(old(entries)@).remove(old(entries)@[i as int].id@),
{
    proof {
        lemma_entries_map_remove(entries@, i as int);
    }
    entries.remove(i);
}

/// The pending elicitations; entries never share an id.
pub struct ElicitationStore {
    origin: std::time::Instant,
    entries: Vec<PendingElicitation>,
}

impl View for ElicitationStore {
    type V = Map<Seq<char>, PendingElicitation>;

    closed spec fn view(&self) -> Map<Seq<char>, PendingElicitation> {
        entries_map(self.entries@)
    }
}

/// The expiry of an entry made at time `now`: `EXPIRY_NANOS` later, saturating
/// at `u64::MAX`.
pub open spec fn expiry_after(now: u64) -> u64 {
    if now <= u64::MAX - EXPIRY_NANOS {
        (now + EXPIRY_NANOS) as u64
    } else {
        u64::MAX
    }
}

impl ElicitationStore {
    #[verifier::type_invariant]
    spec fn inv(self) -> bool {
        unique_ids(self.entries@)
    }

    /// Moves the entries out, leaving the store empty.
    fn take_entries(&mut self) -> (r: Vec<PendingElicitation>)
        ensures
            r@ == old(self).entries@,
            unique_ids(r@),
            final(self).origin == old(self).origin,
    {
        proof {
            use_type_invariant(&*self);
        }
        let mut entries: Vec<PendingElicitation> = Vec::new();
        std::mem::swap(&mut entries, &mut self.entries);
        entries
    }

    /// An empty store, whose clock starts now.
    pub fn new() -> (r: Self)
        ensures
            r@ == Map::<Seq<char>, PendingElicitation>::empty(),
    {
        ElicitationStore { origin: instant_now(), entries: Vec::new() }
    }

    /// Nanoseconds on the store's clock.
    pub fn now(&self) -> u64 {
        nanos_since(&self.origin)
    }

    /// Whether the store holds an entry with this id.
    pub fn contains(&self, id: &str) -> (r: bool)
        ensures
            r == self@.contains_key(id@),
    {
        proof {
            use_type_invariant(self);
            lemma_entries_map(self.entries@);
        }
        position(&self.entries, id).is_some()
    }

    /// Store `entry` under its id, replacing any entry with the same id.
    pub fn insert_entry(&mut self, entry: PendingElicitation)
        ensures
            final(self)@ == old(self)@.insert(entry.id@, entry),
    {
        let mut entries = self.take_entries();
        insert_into(&mut entries, entry);
        self.entries = entries;
    }

    /// Insert a new pending elicitation expiring `EXPIRY_NANOS` after `now`, and
    /// return its id, a fresh UUID.
    pub fn insert_at(
        &mut self,
        document: &str,
        action: ElicitationAction,
        content: Option<String>,
        scm_action_id: Option<String>,
        namespace: &str,
        now: u64,
    ) -> (id: String)
        ensures
            is_hyphenated_uuid(id@),
            final(self)@ == old(self)@.insert(id@, final(self)@[id@]),
            final(self)@[id@].id == id,
            final(self)@[id@].document@ == document@,
            final(self)@[id@].action == action,
            final(self)@[id@].content == content,
            final(self)@[id@].scm_action_id == scm_action_id,
            final(self)@[id@].namespace@ == namespace@,
            final(self)@[id@].expires_at == expiry_after(now),
    {
        let id = new_uuid_v4();
        let expires_at = if now <= u64::MAX - EXPIRY_NANOS {
            now + EXPIRY_NANOS
        } else {
            u64::MAX
        };
        let entry = PendingElicitation {
            id: id.clone(),
            document: String::from_str(document),
            action,
            content,
            scm_action_id,
            namespace: String::from_str(namespace),
            expires_at,
        };
        self.insert_entry(entry);
        id
    }

    /// Insert a new pending elicitation, expiring five minutes from now, and
    /// return its UUID.
    pub fn insert(
        &mut self,
        document: &str,
        action: ElicitationAction,
        content: Option<String>,
        scm_action_id: Option<String>,
        namespace: &str,
    ) -> (id: String)
        ensures
            is_hyphenated_uuid(id@),
            final(self)@ == old(self)@.insert(id@, final(self)@[id@]),
            final(self)@[id@].id == id,
            final(self)@[id@].document@ == document@,
            final(self)@[id@].action == action,
            final(self)@[id@].content == content,
            final(self)@[id@].scm_action_id == scm_action_id,
            final(self)@[id@].namespace@ == namespace@,
            exists|t: u64| final(self)@[id@].expires_at == #[trigger] expiry_after(t),
    {
        let now = self.now();
        self.insert_at(document, action, content, scm_action_id, namespace, now)
    }

    /// Look up a pending elicitation at time `now`. A missing entry gives
    /// None; an expired one gives None and is removed; otherwise a copy of the
    /// entry, leaving the store as it was.
    pub fn lookup_at(&mut self, id: &str, now: u64) -> (r: Option<PendingElicitation>)
        ensures
            (r, final(self)@) == lookup_s(old(self)@, id@, now),
            !old(self)@.contains_key(id@) ==> r is None && final(self)@ == old(self)@,
            old(self)@.contains_key(id@) && is_expired(old(self)@[id@], now) ==> r is None
                && final(self)@ == old(self)@.remove(id@),
            old(self)@.contains_key(id@) && !is_expired(old(self)@[id@], now) ==> r == Some(
                old(self)@[id@],
            ) && final(self)@ == old(self)@,
    {
        let mut entries = self.take_entries();
        proof {
            lemma_entries_map(entries@);
        }
        let r = match position(&entries, id) {
            None => None,
            Some(i) => {
                assert(entries_map(entries@)[id@] == entries@[i as int]);
                if now > entries[i].expires_at {
                    remove_at(&mut entries, i);
                    None
                } else {
                    Some(entries[i].duplicate())
                }
            },
        };
        self.entries = entries;
        r
    }

    /// Look up a pending elicitation by id. Returns None if expired (and then
    /// drops it) or missing. It is `lookup_at` at the time read from the
    /// store's clock.
    pub fn lookup(&mut self, id: &str) -> (r: Option<PendingElicitation>)
        ensures
            exists|t: u64| #[trigger] lookup_s(old(self)@, id@, t) == (r, final(self)@),
            !old(self)@.contains_key(id@) ==> r is None && final(self)@ == old(self)@,
            r matches Some(e) ==> old(self)@.contains_key(id@) && e == old(self)@[id@]
                && final(self)@ == old(self)@,
            r is None && old(self)@.contains_key(id@) ==> final(self)@ == old(self)@.remove(id@),
    {
        let now = self.now();
        let r = self.lookup_at(id, now);
        assert(lookup_s(old(self)@, id@, now) == (r, self@));
        r
    }

    /// Look up a pending elicitation at time `now` (see `lookup_s`) and, whatever
    /// the answer, drop it.
    pub fn take_at(&mut self, id: &str, now: u64) -> (r: Option<PendingElicitation>)
        ensures
            r == lookup_s(old(self)@, id@, now).0,
            final(self)@ == old(self)@.remove(id@),
    {
        let r = self.lookup_at(id, now);
        self.clear(id);
        assert(self@ =~= old(self)@.remove(id@));
        r
    }

    /// Look up a pending elicitation and, whatever the answer, drop it: the
    /// answer is what `lookup` gives, and the id is gone afterwards.
    pub fn take(&mut self, id: &str) -> (r: Option<PendingElicitation>)
        ensures
            exists|t: u64| #[trigger] lookup_s(old(self)@, id@, t).0 == r,
            final(self)@ == old(self)@.remove(id@),
            r matches Some(e) ==> old(self)@.contains_key(id@) && e == old(self)@[id@],
            !old(self)@.contains_key(id@) ==> r is None,
    {
        let now = self.now();
        let r = self.take_at(id, now);
        assert(lookup_s(old(self)@, id@, now).0 == r);
        r
    }

    /// Remove a pending elicitation.
    pub fn clear(&mut self, id: &str)
        ensures
            final(self)@ == old(self)@.remove(id@),
    {
        let mut entries = self.take_entries();
        proof {
            lemma_entries_map(entries@);
        }
        match position(&entries, id) {
            None => {
                assert(entries_map(entries@).remove(id@) =~= entries_map(entries@));
            },
            Some(i) => {
                remove_at(&mut entries, i);
            },
        }
        self.entries = entries;
    }

    /// Remove all entries expired at `now`; returns how many were removed.
    pub fn sweep_at(&mut self, now: u64) -> (count: usize)
        ensures
            final(self)@ == live_at(old(self)@, now),
            old(self)@.dom().finite(),
            final(self)@.dom().finite(),
            count == expired_ids(old(self)@, now).len(),
            count == old(self)@.dom().len() - final(self)@.dom().len(),
    {
        let mut entries = self.take_entries();
        let ghost s = entries@;
        let ghost sm = entries_map(s);
        proof {
            lemma_entries_map(s);
        }
        let mut i: usize = 0;
        let mut count: usize = 0;
        assert(s.len() == entries.len());
        while i < entries.len()
            invariant
                unique_ids(entries@),
                sm == entries_map(s),
                unique_ids(s),
                i <= entries@.len(),
                count + entries@.len() == s.len(),
                s.len() <= usize::MAX,
                forall|k: Seq<char>| #[trigger]
                    entries_map(entries@).contains_key(k) ==> sm.contains_key(k)
                        && entries_map(entries@)[k] == sm[k],
                forall|k: Seq<char>|
                    #[trigger] sm.contains_key(k) && !is_expired(sm[k], now) ==> entries_map(
                        entries@,
                    ).contains_key(k),
                forall|j: int| 0 <= j < i ==> !is_expired(#[trigger] entries@[j], now),
            decreases entries.len() - i,
        {
            proof {
                lemma_entries_map(entries@);
            }
            if now > entries[i].expires_at {
                let ghost before = entries@;
                remove_at(&mut entries, i);
                count = count + 1;
                proof {
                    assert forall|j: int| 0 <= j < i implies !is_expired(
                        #[trigger] entries@[j],
                        now,
                    ) by {
                        assert(entries@[j] == before[j]);
                    }
                }
            } else {
                i = i + 1;
            }
        }
        proof {
            lemma_entries_map(entries@);
            let cur = entries_map(entries@);
            assert forall|k: Seq<char>| cur.contains_key(k) implies !is_expired(sm[k], now) by {
                let j = choose|j: int| 0 <= j < entries@.len() && entries@[j].id@ == k;
                assert(cur[entries@[j].id@] == entries@[j]);
            }
            assert(cur =~= live_at(sm, now));
            lemma_entries_map_finite(s);
            lemma_sweep_count(sm, now);
        }
        self.entries = entries;
        count
    }

    /// Remove all expired entries. Returns the count of removed entries.
    /// The entries kept are exactly those still valid at the time read from
    /// the store's clock; what that time is, the clock decides.
    pub fn sweep(&mut self) -> (count: usize)
        ensures
            exists|t: u64| #[trigger] live_at(old(self)@, t) == final(self)@ && count == expired_ids(
                old(self)@,
                t,
            ).len(),
            final(self)@.dom().finite(),
            count == old(self)@.dom().len() - final(self)@.dom().len(),
            final(self)@.dom().subset_of(old(self)@.dom()),
            forall|k: Seq<char>| #[trigger] final(self)@.contains_key(k) ==> final(self)@[k] == old(
                self,
            )@[k],
    {
        let now = self.now();
        let count = self.sweep_at(now);
        assert(live_at(old(self)@, now) == self@ && count == expired_ids(old(self)@, now).len());
        count
    }
}

} // verus!
