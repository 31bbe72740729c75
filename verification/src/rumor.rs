//! Rumor identity and rumor-heat bookkeeping: which rumors must still be
//! offered aggressively to peers. This core only re-ignites heat or removes
//! it wholesale; cooling over successive rounds is the sender's concern.

use vstd::prelude::*;

verus! {

/// The rumor categories carried by the protocol.
#[derive(Clone, Copy, Debug, PartialEq, Eq, Structural)]
pub enum RumorType {
    Member,
    Departure,
    Election,
    Update,
    Service,
    ServiceConfig,
    ServiceFile,
}

/// Immutable identity of a rumor instance: category, primary id and an
/// optional secondary qualifier (empty when absent). Two keys are equal
/// exactly when all three fields match.
pub struct RumorKey {
    pub kind: RumorType,
    pub id: String,
    pub key: String,
}

/// Field-wise equality of rumor keys.
pub open spec fn key_matches(a: RumorKey, b: RumorKey) -> bool {
    a.kind == b.kind && a.id@ == b.id@ && a.key@ == b.key@
}

impl RumorKey {
    pub fn new(kind: RumorType, id: &str, key: &str) -> (r: RumorKey)
        ensures
            r.kind == kind,
            r.id@ == id@,
            r.key@ == key@,
    {
        RumorKey { kind, id: id.to_owned(), key: key.to_owned() }
    }

    /// A fresh key with the same fields.
    pub fn duplicate(&self) -> (r: RumorKey)
        ensures
            r == *self,
    {
        RumorKey { kind: self.kind, id: self.id.clone(), key: self.key.clone() }
    }

    pub fn matches(&self, other: &RumorKey) -> (b: bool)
        ensures
            b == key_matches(*self, *other),
    {
        self.kind == other.kind && self.id == other.id && self.key == other.key
    }
}

/// Retransmission state for one rumor: how many rounds it has already been
/// offered. Zero is freshly hot; the out-of-scope sender raises it as the
/// rumor cools.
pub struct HeatEntry {
    pub key: RumorKey,
    pub heat: u64,
}

/// Each rumor key occurs at most once.
pub open spec fn unique_keys(h: Seq<HeatEntry>) -> bool {
    forall|i: int, j: int|
        0 <= i < h.len() && 0 <= j < h.len() && i != j ==> !key_matches(h[i].key, h[j].key)
}

pub open spec fn has_key(h: Seq<HeatEntry>, key: RumorKey) -> bool {
    exists|i: int| 0 <= i < h.len() && key_matches(h[i].key, key)
}

/// The heat table after marking `key` freshly urgent: the entry for `key`
/// is reset to heat zero, created if absent; every other entry is untouched.
pub open spec fn ignited(h: Seq<HeatEntry>, key: RumorKey) -> Seq<HeatEntry> {
    if has_key(h, key) {
        h.map_values(
            |e: HeatEntry| if key_matches(e.key, key) { HeatEntry { key: e.key, heat: 0 } } else { e },
        )
    } else {
        h.push(HeatEntry { key, heat: 0 })
    }
}

/// The heat table after purging one primary id: exactly the entries whose
/// key carries another id survive, in order.
pub open spec fn purged(h: Seq<HeatEntry>, id: Seq<char>) -> Seq<HeatEntry>
    decreases h.len(),
{
    if h.len() == 0 {
        Seq::empty()
    } else if h.last().key.id@ == id {
        purged(h.drop_last(), id)
    } else {
        purged(h.drop_last(), id).push(h.last())
    }
}

/// Tracks per-rumor retransmission urgency.
pub struct RumorHeat {
    pub entries: Vec<HeatEntry>,
}

impl RumorHeat {
    pub open spec fn wf(self) -> bool {
        unique_keys(self.entries@)
    }

    pub fn new() -> (r: RumorHeat)
        ensures
            r.wf(),
            r.entries@.len() == 0,
    {
        RumorHeat { entries: Vec::new() }
    }

    pub fn len(&self) -> (n: usize)
        ensures
            n == self.entries@.len(),
    {
        self.entries.len()
    }

    /// The recorded heat for `key`, if an entry exists.
    pub fn heat_of(&self, key: &RumorKey) -> (r: Option<u64>)
        requires
            self.wf(),
        ensures
            match r {
                Some(v) => exists|i: int|
                    0 <= i < self.entries@.len() && key_matches(self.entries@[i].key, *key)
                        && self.entries@[i].heat == v,
                None => !has_key(self.entries@, *key),
            },
    {
        let n = self.entries.len();
        let mut i: usize = 0;
        while i < n
            invariant
                i <= n,
                n == self.entries@.len(),
                forall|j: int| 0 <= j < i ==> !key_matches(self.entries@[j].key, *key),
            decreases n - i,
        {
            if self.entries[i].key.matches(&key) {
                return Some(self.entries[i].heat);
            }
            i += 1;
        }
        None
    }

    /// Marks the rumor identified by `key` as freshly urgent, clearing any
    /// cooldown so it is offered to peers again; creates the entry if
    /// absent. Idempotent.
    pub fn start_hot_rumor(&mut self, key: RumorKey)
        requires
            old(self).wf(),
        ensures
            final(self).wf(),
            final(self).entries@ == ignited(old(self).entries@, key),
    {
        let ghost oldh = self.entries@;
        let n = self.entries.len();
        let mut i: usize = 0;
        while i < n
            invariant
                i <= n,
                n == self.entries@.len(),
                self.entries@ == oldh,
                oldh == old(self).entries@,
                unique_keys(oldh),
                forall|j: int| 0 <= j < i ==> !key_matches(oldh[j].key, key),
            decreases n - i,
        {
            if self.entries[i].key.matches(&key) {
                let k2 = self.entries[i].key.duplicate();
                self.entries[i] = HeatEntry { key: k2, heat: 0 };
                proof {
                    assert(key_matches(oldh[i as int].key, key));
                    assert(has_key(oldh, key));
                    assert forall|j: int|
                        0 <= j < oldh.len() && j != i implies !key_matches(oldh[j].key, key) by {
                        assert(!key_matches(oldh[j].key, oldh[i as int].key));
                    }
                    assert(self.entries@ =~= ignited(oldh, key));
                }
                return ;
            }
            i += 1;
        }
        self.entries.push(HeatEntry { key, heat: 0 });
        proof {
            assert(!has_key(oldh, key));
        }
    }

    /// Removes every heat entry whose primary id matches `id`, across all
    /// categories and secondary keys, and leaves every other entry as it
    /// stands, in order.
    pub fn purge(&mut self, id: &String)
        requires
            old(self).wf(),
        ensures
            final(self).wf(),
            final(self).entries@ == purged(old(self).entries@, id@),
    {
        let ghost oldh = self.entries@;
        let n = self.entries.len();
        let mut kept: Vec<HeatEntry> = Vec::new();
        let mut i: usize = 0;
        while i < n
            invariant
                i <= n,
                n == self.entries@.len(),
                self.entries@ == oldh,
                kept@ == purged(oldh.take(i as int), id@),
            decreases n - i,
        {
            proof {
                assert(oldh.take(i as int + 1).drop_last() =~= oldh.take(i as int));
                assert(oldh.take(i as int + 1).last() == oldh[i as int]);
            }
            let e = &self.entries[i];
            if !(e.key.id == *id) {
                let e2 = HeatEntry { key: e.key.duplicate(), heat: e.heat };
                assert(e2 == oldh[i as int]);
                kept.push(e2);
            }
            i += 1;
        }
        proof {
            assert(oldh.take(n as int) =~= oldh);
            lemma_purged_props(oldh, id@);
        }
        self.entries = kept;
    }
}

/// What survives a purge came from the table, and key uniqueness survives
/// with it.
pub proof fn lemma_purged_props(h: Seq<HeatEntry>, id: Seq<char>)
    ensures
        forall|x: HeatEntry| #[trigger] purged(h, id).contains(x) ==> h.contains(x),
        unique_keys(h) ==> unique_keys(purged(h, id)),
    decreases h.len(),
{
    if h.len() > 0 {
        let rest = h.drop_last();
        let last = h.last();
        lemma_purged_props(rest, id);
        let pr = purged(rest, id);
        assert forall|x: HeatEntry| #[trigger] pr.contains(x) implies h.contains(x) by {
            assert(rest.contains(x));
            let j = choose|j: int| 0 <= j < rest.len() && rest[j] == x;
            assert(h[j] == x);
        }
        if last.key.id@ != id {
            crate::lemma_push_contains(pr, last);
            assert forall|x: HeatEntry| #[trigger] purged(h, id).contains(x) implies h.contains(
                x,
            ) by {
                if pr.contains(x) {
                } else {
                    assert(x == last);
                    assert(h[h.len() - 1] == x);
                }
            }
            if unique_keys(h) {
                assert(unique_keys(rest)) by {
                    assert forall|a: int, b: int|
                        0 <= a < rest.len() && 0 <= b < rest.len() && a != b implies !key_matches(
                        rest[a].key,
                        rest[b].key,
                    ) by {
                        assert(rest[a] == h[a] && rest[b] == h[b]);
                    }
                }
                assert forall|a: int, b: int|
                    0 <= a < purged(h, id).len() && 0 <= b < purged(h, id).len() && a
                        != b implies !key_matches(
                    purged(h, id)[a].key,
                    purged(h, id)[b].key,
                ) by {
                    let p = purged(h, id);
                    if a < pr.len() && b < pr.len() {
                        assert(p[a] == pr[a] && p[b] == pr[b]);
                    } else if a < pr.len() {
                        assert(p[b] == last && p[a] == pr[a]);
                        assert(pr.contains(pr[a]));
                        let j = choose|j: int| 0 <= j < rest.len() && rest[j] == pr[a];
                        assert(h[j] == pr[a] && h[h.len() - 1] == last);
                        assert(!key_matches(h[j].key, h[h.len() - 1].key));
                    } else {
                        assert(p[a] == last && p[b] == pr[b]);
                        assert(pr.contains(pr[b]));
                        let j = choose|j: int| 0 <= j < rest.len() && rest[j] == pr[b];
                        assert(h[j] == pr[b] && h[h.len() - 1] == last);
                        assert(!key_matches(h[j].key, h[h.len() - 1].key));
                    }
                }
            }
        } else {
            if unique_keys(h) {
                assert(unique_keys(rest)) by {
                    assert forall|a: int, b: int|
                        0 <= a < rest.len() && 0 <= b < rest.len() && a != b implies !key_matches(
                        rest[a].key,
                        rest[b].key,
                    ) by {
                        assert(rest[a] == h[a] && rest[b] == h[b]);
                    }
                }
            }
        }
    }
}

/// Scoped purge: purging one primary id removes every entry for that id —
/// whatever its category or secondary key — and keeps every entry of every
/// other id.
pub proof fn lemma_purge_scoped(h: Seq<HeatEntry>, id: Seq<char>)
    ensures
        forall|x: HeatEntry| #[trigger] purged(h, id).contains(x) ==> x.key.id@ != id,
        forall|x: HeatEntry| h.contains(x) && x.key.id@ != id ==> #[trigger] purged(
            h,
            id,
        ).contains(x),
    decreases h.len(),
{
    if h.len() > 0 {
        let rest = h.drop_last();
        let last = h.last();
        lemma_purge_scoped(rest, id);
        let pr = purged(rest, id);
        if last.key.id@ != id {
            crate::lemma_push_contains(pr, last);
        }
        assert forall|x: HeatEntry| h.contains(x) && x.key.id@ != id implies #[trigger] purged(
            h,
            id,
        ).contains(x) by {
            let i = choose|i: int| 0 <= i < h.len() && h[i] == x;
            if i < h.len() - 1 {
                assert(rest[i] == x);
                assert(rest.contains(x));
            } else {
                assert(x == last);
            }
        }
    }
}

/// Re-igniting a rumor twice is the same as once.
pub proof fn lemma_ignite_idempotent(h: Seq<HeatEntry>, key: RumorKey)
    ensures
        ignited(ignited(h, key), key) == ignited(h, key),
{
    let h1 = ignited(h, key);
    if has_key(h, key) {
        let i = choose|i: int| 0 <= i < h.len() && key_matches(h[i].key, key);
        assert(key_matches(h1[i].key, key));
        assert(has_key(h1, key));
    } else {
        assert(h1[h.len() as int] == HeatEntry { key, heat: 0 });
        assert(key_matches(h1[h.len() as int].key, key));
        assert(has_key(h1, key));
    }
    assert(ignited(h1, key) =~= h1);
}

} // verus!
