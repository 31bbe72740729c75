//! The expiring rumor store: a mapping from rumor identity to payload and
//! optional expiry, instantiated once per rumor category. The payload is
//! opaque to this core; entries without an expiry are permanent as far as
//! the purge path is concerned.

use vstd::prelude::*;

verus! {

/// One stored rumor: identity, an opaque payload, and an optional expiry
/// timestamp in milliseconds.
pub struct StoreEntry<P> {
    pub id: String,
    pub payload: P,
    pub expiry: Option<i64>,
}

/// Whether the entry's deadline has passed at `now`. The threshold is
/// inclusive; an entry without an expiry never expires.
pub open spec fn entry_expired<P>(e: StoreEntry<P>, now: i64) -> bool {
    match e.expiry {
        Some(t) => t <= now,
        None => false,
    }
}

/// The store's contents after one purge against `now`: exactly the entries
/// not yet expired survive, in order.
pub open spec fn retained<P>(s: Seq<StoreEntry<P>>, now: i64) -> Seq<StoreEntry<P>>
    decreases s.len(),
{
    if s.len() == 0 {
        Seq::empty()
    } else if entry_expired(s.last(), now) {
        retained(s.drop_last(), now)
    } else {
        retained(s.drop_last(), now).push(s.last())
    }
}

/// Each rumor identity occurs at most once.
pub open spec fn unique_entry_ids<P>(s: Seq<StoreEntry<P>>) -> bool {
    forall|i: int, j: int|
        0 <= i < s.len() && 0 <= j < s.len() && i != j ==> s[i].id@ != s[j].id@
}

pub open spec fn store_has_id<P>(s: Seq<StoreEntry<P>>, id: Seq<char>) -> bool {
    exists|i: int| 0 <= i < s.len() && s[i].id@ == id
}

/// One rumor category's store.
pub struct ExpiringStore<P> {
    pub entries: Vec<StoreEntry<P>>,
}

impl<P> ExpiringStore<P> {
    pub open spec fn wf(self) -> bool {
        unique_entry_ids(self.entries@)
    }

    pub fn new() -> (r: ExpiringStore<P>)
        ensures
            r.wf(),
            r.entries@.len() == 0,
    {
        ExpiringStore { entries: Vec::new() }
    }

    pub fn len(&self) -> (n: usize)
        ensures
            n == self.entries@.len(),
    {
        self.entries.len()
    }

    pub fn contains_id(&self, id: &String) -> (b: bool)
        ensures
            b == store_has_id(self.entries@, id@),
    {
        let n = self.entries.len();
        let mut i: usize = 0;
        while i < n
            invariant
                i <= n,
                n == self.entries@.len(),
                forall|j: int| 0 <= j < i ==> self.entries@[j].id@ != id@,
            decreases n - i,
        {
            if self.entries[i].id == *id {
                return true;
            }
            i += 1;
        }
        false
    }

    /// Stores a rumor under a fresh identity. Merging a rumor into an
    /// identity already present is the gossip-receive path's concern, so
    /// the identity must not be present yet.
    pub fn insert(&mut self, id: String, payload: P, expiry: Option<i64>)
        requires
            old(self).wf(),
            !store_has_id(old(self).entries@, id@),
        ensures
            final(self).wf(),
            final(self).entries@ == old(self).entries@.push(
                StoreEntry { id, payload, expiry },
            ),
    {
        self.entries.push(StoreEntry { id, payload, expiry });
    }

    /// Removes every entry whose expiry has passed at `now` (inclusive) and
    /// leaves every other entry as it stands, in order. Entries without an
    /// expiry are permanent. Idempotent for a fixed `now`.
    pub fn purge_expired(&mut self, now: i64)
        requires
            old(self).wf(),
        ensures
            final(self).wf(),
            final(self).entries@ == retained(old(self).entries@, now),
    {
        let ghost olds = self.entries@;
        let mut kept: Vec<StoreEntry<P>> = Vec::new();
        let ghost mut p: int = 0;
        while self.entries.len() > 0
            invariant
                0 <= p <= olds.len(),
                self.entries@ == olds.skip(p),
                kept@ == retained(olds.take(p), now),
            decreases self.entries@.len(),
        {
            proof {
                assert(olds.take(p + 1).drop_last() =~= olds.take(p));
                assert(olds.take(p + 1).last() == olds[p]);
                assert(olds.skip(p).remove(0) =~= olds.skip(p + 1));
            }
            let e = self.entries.remove(0);
            assert(e == olds[p]);
            let expired = match e.expiry {
                Some(t) => t <= now,
                None => false,
            };
            if !expired {
                kept.push(e);
            }
            proof {
                p = p + 1;
            }
        }
        proof {
            assert(olds.take(p) =~= olds);
            lemma_retained_props(olds, now);
        }
        self.entries = kept;
    }
}

/// What survives a purge came from the store, and identity uniqueness
/// survives with it.
pub proof fn lemma_retained_props<P>(s: Seq<StoreEntry<P>>, now: i64)
    ensures
        forall|x: StoreEntry<P>| #[trigger] retained(s, now).contains(x) ==> s.contains(x),
        unique_entry_ids(s) ==> unique_entry_ids(retained(s, now)),
    decreases s.len(),
{
    if s.len() > 0 {
        let rest = s.drop_last();
        let last = s.last();
        lemma_retained_props(rest, now);
        let pr = retained(rest, now);
        assert forall|x: StoreEntry<P>| #[trigger] pr.contains(x) implies s.contains(x) by {
            assert(rest.contains(x));
            let j = choose|j: int| 0 <= j < rest.len() && rest[j] == x;
            assert(s[j] == x);
        }
        if unique_entry_ids(s) {
            assert(unique_entry_ids(rest)) by {
                assert forall|a: int, b: int|
                    0 <= a < rest.len() && 0 <= b < rest.len() && a != b implies rest[a].id@
                    != rest[b].id@ by {
                    assert(rest[a] == s[a] && rest[b] == s[b]);
                }
            }
        }
        if !entry_expired(last, now) {
            crate::lemma_push_contains(pr, last);
            assert forall|x: StoreEntry<P>| #[trigger] retained(s, now).contains(x) implies
                s.contains(x) by {
                if pr.contains(x) {
                } else {
                    assert(x == last);
                    assert(s[s.len() - 1] == x);
                }
            }
            if unique_entry_ids(s) {
                assert forall|a: int, b: int|
                    0 <= a < retained(s, now).len() && 0 <= b < retained(s, now).len() && a
                        != b implies retained(s, now)[a].id@ != retained(s, now)[b].id@ by {
                    let r = retained(s, now);
                    if a < pr.len() && b < pr.len() {
                        assert(r[a] == pr[a] && r[b] == pr[b]);
                    } else if a < pr.len() {
                        assert(r[b] == last && r[a] == pr[a]);
                        assert(pr.contains(pr[a]));
                        let j = choose|j: int| 0 <= j < rest.len() && rest[j] == pr[a];
                        assert(s[j] == pr[a] && s[s.len() - 1] == last);
                    } else {
                        assert(r[a] == last && r[b] == pr[b]);
                        assert(pr.contains(pr[b]));
                        let j = choose|j: int| 0 <= j < rest.len() && rest[j] == pr[b];
                        assert(s[j] == pr[b] && s[s.len() - 1] == last);
                    }
                }
            }
        }
    }
}

/// What a purge keeps and removes, entry by entry: no expired entry
/// survives, and every live entry does.
pub proof fn lemma_retained_membership<P>(s: Seq<StoreEntry<P>>, now: i64)
    ensures
        forall|x: StoreEntry<P>| #[trigger] retained(s, now).contains(x) ==> !entry_expired(
            x,
            now,
        ),
        forall|x: StoreEntry<P>| s.contains(x) && !entry_expired(x, now) ==> #[trigger] retained(
            s,
            now,
        ).contains(x),
    decreases s.len(),
{
    if s.len() > 0 {
        let rest = s.drop_last();
        let last = s.last();
        lemma_retained_membership(rest, now);
        let pr = retained(rest, now);
        if !entry_expired(last, now) {
            crate::lemma_push_contains(pr, last);
        }
        assert forall|x: StoreEntry<P>| s.contains(x) && !entry_expired(x, now) implies #[trigger] retained(
            s,
            now,
        ).contains(x) by {
            let i = choose|i: int| 0 <= i < s.len() && s[i] == x;
            if i < s.len() - 1 {
                assert(rest[i] == x);
                assert(rest.contains(x));
            } else {
                assert(x == last);
            }
        }
    }
}

/// Idempotent purge: purging a second time against the same instant leaves
/// the store exactly as the first purge left it.
pub proof fn lemma_purge_expired_idempotent<P>(s: Seq<StoreEntry<P>>, now: i64)
    ensures
        retained(retained(s, now), now) == retained(s, now),
    decreases s.len(),
{
    if s.len() > 0 {
        lemma_purge_expired_idempotent(s.drop_last(), now);
        if !entry_expired(s.last(), now) {
            let r = retained(s.drop_last(), now);
            assert(r.push(s.last()).drop_last() =~= r);
            assert(r.push(s.last()).last() == s.last());
        }
    }
}

} // verus!
