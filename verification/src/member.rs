//! The member state machine: per-member identity, incarnation, state and
//! last-transition time, with the time-driven bulk transitions that move
//! members from `Suspect` to `Confirmed` and from `Confirmed` to `Departed`.

use vstd::prelude::*;

verus! {

/// Graduated stages of declaring a peer unreachable. The transitions driven
/// by this core only move forward: `Suspect` to `Confirmed` to `Departed`.
#[derive(Clone, Copy, Debug, PartialEq, Eq, Structural)]
pub enum MemberState {
    Alive,
    Suspect,
    Confirmed,
    Departed,
}

/// One member of the cluster. `last_state_change` is a timestamp in
/// milliseconds; timeouts are measured from it, never from a global epoch.
pub struct Member {
    pub id: String,
    pub incarnation: u64,
    pub state: MemberState,
    pub last_state_change: i64,
}

/// Whether a member in state `from` has, at `now`, rested in that state for
/// at least `timeout` milliseconds since its last transition. The threshold
/// is inclusive: a member reaching exactly the boundary is due.
pub open spec fn is_due(m: Member, from: MemberState, now: i64, timeout: i64) -> bool {
    m.state == from && now as int - m.last_state_change as int >= timeout as int
}

/// The member as it stands after a transition to `to` observed at `now`:
/// identity and incarnation are kept, the state is replaced and the
/// transition time reset.
pub open spec fn advanced(m: Member, to: MemberState, now: i64) -> Member {
    Member { id: m.id, incarnation: m.incarnation, state: to, last_state_change: now }
}

/// The whole member sequence after one bulk transition pass: every member due
/// to leave `from` is advanced to `to`, every other member is untouched.
pub open spec fn expire_map(
    ms: Seq<Member>,
    from: MemberState,
    to: MemberState,
    now: i64,
    timeout: i64,
) -> Seq<Member> {
    ms.map_values(
        |m: Member| if is_due(m, from, now, timeout) { advanced(m, to, now) } else { m },
    )
}

/// The views of a sequence of owned id strings.
pub open spec fn id_views(ids: Seq<String>) -> Seq<Seq<char>> {
    ids.map_values(|s: String| s@)
}

/// The ids (as character sequences) of exactly the members due to leave
/// `from`, in member-table order.
pub open spec fn due_ids(
    ms: Seq<Member>,
    from: MemberState,
    now: i64,
    timeout: i64,
) -> Seq<Seq<char>>
    decreases ms.len(),
{
    if ms.len() == 0 {
        Seq::empty()
    } else if is_due(ms.last(), from, now, timeout) {
        due_ids(ms.drop_last(), from, now, timeout).push(ms.last().id@)
    } else {
        due_ids(ms.drop_last(), from, now, timeout)
    }
}

/// Each member id occurs at most once.
pub open spec fn unique_ids(ms: Seq<Member>) -> bool {
    forall|i: int, j: int|
        0 <= i < ms.len() && 0 <= j < ms.len() && i != j ==> ms[i].id@ != ms[j].id@
}

pub open spec fn has_id(ms: Seq<Member>, id: Seq<char>) -> bool {
    exists|i: int| 0 <= i < ms.len() && ms[i].id@ == id
}

/// The index of the member with the given id; meaningful only when
/// `has_id(ms, id)` holds (and then unique under `unique_ids`).
pub open spec fn id_index(ms: Seq<Member>, id: Seq<char>) -> int {
    choose|i: int| 0 <= i < ms.len() && ms[i].id@ == id
}

/// An id stands in a scan's result exactly when some member carries it and
/// is due to leave `from`.
pub proof fn lemma_due_ids_contains(
    ms: Seq<Member>,
    from: MemberState,
    now: i64,
    timeout: i64,
    id: Seq<char>,
)
    ensures
        due_ids(ms, from, now, timeout).contains(id) <==> (exists|i: int|
            0 <= i < ms.len() && ms[i].id@ == id && is_due(ms[i], from, now, timeout)),
    decreases ms.len(),
{
    let s = due_ids(ms, from, now, timeout);
    if ms.len() > 0 {
        let rest = ms.drop_last();
        let last = ms.last();
        lemma_due_ids_contains(rest, from, now, timeout, id);
        let sr = due_ids(rest, from, now, timeout);
        if is_due(last, from, now, timeout) {
            crate::lemma_push_contains(sr, last.id@);
        }
        if s.contains(id) {
            if is_due(last, from, now, timeout) && last.id@ == id {
                assert(ms[ms.len() - 1].id@ == id && is_due(ms[ms.len() - 1], from, now, timeout));
            } else {
                let j = choose|j: int|
                    0 <= j < rest.len() && rest[j].id@ == id && is_due(rest[j], from, now, timeout);
                assert(ms[j].id@ == id && is_due(ms[j], from, now, timeout));
            }
        }
        if exists|i: int| 0 <= i < ms.len() && ms[i].id@ == id && is_due(ms[i], from, now, timeout) {
            let i = choose|i: int|
                0 <= i < ms.len() && ms[i].id@ == id && is_due(ms[i], from, now, timeout);
            if i == ms.len() - 1 {
                assert(s.contains(id));
            } else {
                assert(rest[i].id@ == id && is_due(rest[i], from, now, timeout));
                assert(sr.contains(id));
            }
        }
    }
}

/// Threshold exactness: a member holding `Suspect` at scan time is reported
/// by the Suspect-to-Confirmed scan exactly when the scan's `now` has
/// reached its last transition time plus the timeout — at the boundary
/// itself, and never earlier.
pub proof fn lemma_threshold_exact(ms: Seq<Member>, i: int, now: i64, timeout: i64)
    requires
        unique_ids(ms),
        0 <= i < ms.len(),
        ms[i].state == MemberState::Suspect,
    ensures
        due_ids(ms, MemberState::Suspect, now, timeout).contains(ms[i].id@) <==> now as int
            >= ms[i].last_state_change as int + timeout as int,
{
    lemma_due_ids_contains(ms, MemberState::Suspect, now, timeout, ms[i].id@);
    if due_ids(ms, MemberState::Suspect, now, timeout).contains(ms[i].id@) {
        let j = choose|j: int|
            0 <= j < ms.len() && ms[j].id@ == ms[i].id@ && is_due(
                ms[j],
                MemberState::Suspect,
                now,
                timeout,
            );
        assert(j == i);
    }
}

/// Race safety: a member that does not hold `from` at scan time — for
/// instance one an external actor already moved out of `Suspect` — is never
/// reported by the scan from `from`.
pub proof fn lemma_not_in_state_not_reported(
    ms: Seq<Member>,
    from: MemberState,
    now: i64,
    timeout: i64,
    i: int,
)
    requires
        unique_ids(ms),
        0 <= i < ms.len(),
        ms[i].state != from,
    ensures
        !due_ids(ms, from, now, timeout).contains(ms[i].id@),
{
    lemma_due_ids_contains(ms, from, now, timeout, ms[i].id@);
    if due_ids(ms, from, now, timeout).contains(ms[i].id@) {
        let j = choose|j: int|
            0 <= j < ms.len() && ms[j].id@ == ms[i].id@ && is_due(ms[j], from, now, timeout);
        assert(j == i);
    }
}

/// A scan over a table with unique ids reports each id at most once.
pub proof fn lemma_due_ids_distinct(ms: Seq<Member>, from: MemberState, now: i64, timeout: i64)
    requires
        unique_ids(ms),
    ensures
        forall|a: int, b: int|
            0 <= a < b < due_ids(ms, from, now, timeout).len() ==> due_ids(ms, from, now, timeout)[a]
                != due_ids(ms, from, now, timeout)[b],
    decreases ms.len(),
{
    if ms.len() > 0 {
        let rest = ms.drop_last();
        let last = ms.last();
        assert(unique_ids(rest)) by {
            assert forall|a: int, b: int|
                0 <= a < rest.len() && 0 <= b < rest.len() && a != b implies rest[a].id@
                != rest[b].id@ by {
                assert(rest[a] == ms[a] && rest[b] == ms[b]);
            }
        }
        lemma_due_ids_distinct(rest, from, now, timeout);
        if is_due(last, from, now, timeout) {
            let sr = due_ids(rest, from, now, timeout);
            lemma_due_ids_contains(rest, from, now, timeout, last.id@);
            if sr.contains(last.id@) {
                let j = choose|j: int|
                    0 <= j < rest.len() && rest[j].id@ == last.id@ && is_due(
                        rest[j],
                        from,
                        now,
                        timeout,
                    );
                assert(ms[j].id@ == ms[ms.len() - 1].id@);
            }
            let s = due_ids(ms, from, now, timeout);
            assert forall|a: int, b: int| 0 <= a < b < s.len() implies s[a] != s[b] by {
                if b < sr.len() {
                    assert(s[a] == sr[a] && s[b] == sr[b]);
                } else {
                    assert(s[b] == last.id@ && s[a] == sr[a]);
                    assert(sr.contains(sr[a]));
                }
            }
        } else {
            let sr = due_ids(rest, from, now, timeout);
            let s = due_ids(ms, from, now, timeout);
            assert forall|a: int, b: int| 0 <= a < b < s.len() implies s[a] != s[b] by {
                assert(s[a] == sr[a] && s[b] == sr[b]);
            }
        }
    }
}

/// Tombstone monotonicity, one pass: a member already `Departed` is left
/// exactly as it stands by a scan out of any other state, and its id is not
/// reported.
pub proof fn lemma_departed_is_tombstone(
    ms: Seq<Member>,
    from: MemberState,
    to: MemberState,
    now: i64,
    timeout: i64,
    i: int,
)
    requires
        unique_ids(ms),
        0 <= i < ms.len(),
        ms[i].state == MemberState::Departed,
        from != MemberState::Departed,
    ensures
        expire_map(ms, from, to, now, timeout)[i] == ms[i],
        !due_ids(ms, from, now, timeout).contains(ms[i].id@),
{
    lemma_not_in_state_not_reported(ms, from, now, timeout, i);
}

/// A bulk transition pass keeps every member's id in place, so id
/// uniqueness survives it.
pub proof fn lemma_expire_map_ids(
    ms: Seq<Member>,
    from: MemberState,
    to: MemberState,
    now: i64,
    timeout: i64,
)
    ensures
        expire_map(ms, from, to, now, timeout).len() == ms.len(),
        forall|i: int|
            0 <= i < ms.len() ==> #[trigger] expire_map(ms, from, to, now, timeout)[i].id@
                == ms[i].id@,
        unique_ids(ms) ==> unique_ids(expire_map(ms, from, to, now, timeout)),
{
}

/// The membership table. Exclusively owns its members; mutation goes through
/// the defined transition operations.
pub struct MemberList {
    pub members: Vec<Member>,
}

impl MemberList {
    /// At most one entry per member id.
    pub open spec fn wf(self) -> bool {
        unique_ids(self.members@)
    }

    pub open spec fn spec_state_of(self, id: Seq<char>) -> Option<MemberState> {
        if has_id(self.members@, id) {
            Some(self.members@[id_index(self.members@, id)].state)
        } else {
            None
        }
    }

    pub fn new() -> (r: MemberList)
        ensures
            r.wf(),
            r.members@.len() == 0,
    {
        MemberList { members: Vec::new() }
    }

    pub fn len(&self) -> (n: usize)
        ensures
            n == self.members@.len(),
    {
        self.members.len()
    }

    /// The index of the member carrying `id`, if any.
    fn find(&self, id: &String) -> (r: Option<usize>)
        ensures
            match r {
                Some(i) => 0 <= i < self.members@.len() && self.members@[i as int].id@ == id@,
                None => !has_id(self.members@, id@),
            },
    {
        let n = self.members.len();
        let mut i: usize = 0;
        while i < n
            invariant
                i <= n,
                n == self.members@.len(),
                forall|j: int| 0 <= j < i ==> self.members@[j].id@ != id@,
            decreases n - i,
        {
            if self.members[i].id == *id {
                return Some(i);
            }
            i += 1;
        }
        None
    }

    pub fn contains_id(&self, id: &String) -> (b: bool)
        ensures
            b == has_id(self.members@, id@),
    {
        self.find(id).is_some()
    }

    /// Adds a member under a fresh id. Reconciliation of conflicting
    /// statements about an id already present is the gossip-receive path's
    /// concern, not this core's, so the id must not be present yet.
    pub fn insert(&mut self, member: Member)
        requires
            old(self).wf(),
            !has_id(old(self).members@, member.id@),
        ensures
            final(self).wf(),
            final(self).members@ == old(self).members@.push(member),
    {
        self.members.push(member);
    }

    /// Applies an externally decided transition (the gossip-receive path's
    /// surrogate): the member carrying `id`, if any, is moved to `state` at
    /// `now`; every other member, and the table's shape, are untouched.
    pub fn set_member_state(&mut self, id: &String, state: MemberState, now: i64) -> (found:
        bool)
        requires
            old(self).wf(),
        ensures
            final(self).wf(),
            found == has_id(old(self).members@, id@),
            found ==> final(self).members@ == old(self).members@.update(
                id_index(old(self).members@, id@),
                advanced(old(self).members@[id_index(old(self).members@, id@)], state, now),
            ),
            !found ==> final(self).members@ == old(self).members@,
    {
        match self.find(id) {
            Some(i) => {
                proof {
                    let ms = self.members@;
                    assert(ms[id_index(ms, id@)].id@ == id@ && 0 <= id_index(ms, id@) < ms.len());
                    assert(id_index(ms, id@) == i as int);
                }
                let m = &self.members[i];
                let m2 = Member {
                    id: m.id.clone(),
                    incarnation: m.incarnation,
                    state,
                    last_state_change: now,
                };
                self.members[i] = m2;
                true
            },
            None => false,
        }
    }

    /// The current state of the member carrying `id`, if any.
    pub fn state_of(&self, id: &String) -> (r: Option<MemberState>)
        requires
            self.wf(),
        ensures
            r == self.spec_state_of(id@),
    {
        match self.find(id) {
            Some(i) => {
                proof {
                    let ms = self.members@;
                    assert(ms[id_index(ms, id@)].id@ == id@ && 0 <= id_index(ms, id@) < ms.len());
                    assert(id_index(ms, id@) == i as int);
                }
                Some(self.members[i].state)
            },
            None => None,
        }
    }

    /// One bulk transition pass: every member that has rested in `from` for
    /// at least `timeout` milliseconds at `now` is advanced to `to`, its
    /// transition time reset to `now`; the ids moved are returned, in table
    /// order, and nothing else changes.
    fn expire_members(&mut self, from: MemberState, to: MemberState, timeout: i64, now: i64) -> (ids:
        Vec<String>)
        requires
            old(self).wf(),
            0 <= timeout,
        ensures
            final(self).wf(),
            final(self).members@ == expire_map(old(self).members@, from, to, now, timeout),
            id_views(ids@) == due_ids(old(self).members@, from, now, timeout),
    {
        let ghost oldm = self.members@;
        let n = self.members.len();
        let mut ids: Vec<String> = Vec::new();
        let mut i: usize = 0;
        while i < n
            invariant
                i <= n,
                n == self.members@.len(),
                n == oldm.len(),
                0 <= timeout,
                forall|j: int| i <= j < n ==> self.members@[j] == oldm[j],
                forall|j: int|
                    0 <= j < i ==> self.members@[j] == (if is_due(oldm[j], from, now, timeout) {
                        advanced(oldm[j], to, now)
                    } else {
                        oldm[j]
                    }),
                id_views(ids@) == due_ids(oldm.take(i as int), from, now, timeout),
            decreases n - i,
        {
            proof {
                assert(oldm.take(i as int + 1).drop_last() =~= oldm.take(i as int));
                assert(oldm.take(i as int + 1).last() == oldm[i as int]);
            }
            let m = &self.members[i];
            let due = m.state == from && m.last_state_change <= i64::MAX - timeout && now
                >= m.last_state_change + timeout;
            assert(due == is_due(oldm[i as int], from, now, timeout));
            if due {
                let id = m.id.clone();
                let inc = m.incarnation;
                let m2 = Member { id: id.clone(), incarnation: inc, state: to, last_state_change: now };
                let ghost ids_pre = ids@;
                self.members[i] = m2;
                ids.push(id);
                proof {
                    assert(ids@.map_values(|s: String| s@) =~= ids_pre.map_values(
                        |s: String| s@,
                    ).push(oldm[i as int].id@));
                }
            }
            i += 1;
        }
        proof {
            assert(oldm.take(n as int) =~= oldm);
            assert(self.members@ =~= expire_map(oldm, from, to, now, timeout));
            assert forall|a: int, b: int|
                0 <= a < n && 0 <= b < n && a != b implies self.members@[a].id@
                != self.members@[b].id@ by {
                assert(self.members@[a].id@ == oldm[a].id@);
                assert(self.members@[b].id@ == oldm[b].id@);
            }
        }
        ids
    }

    /// Scans the members in `Suspect` state and advances to `Confirmed`
    /// every one whose elapsed time since its last transition is at least
    /// `timeout` (the threshold is inclusive), resetting its transition time
    /// to `now`; returns exactly the ids moved.
    pub fn expire_suspect_to_confirmed(&mut self, timeout: i64, now: i64) -> (ids: Vec<String>)
        requires
            old(self).wf(),
            0 <= timeout,
        ensures
            final(self).wf(),
            final(self).members@ == expire_map(
                old(self).members@,
                MemberState::Suspect,
                MemberState::Confirmed,
                now,
                timeout,
            ),
            id_views(ids@) == due_ids(
                old(self).members@,
                MemberState::Suspect,
                now,
                timeout,
            ),
    {
        self.expire_members(MemberState::Suspect, MemberState::Confirmed, timeout, now)
    }

    /// The analogous pass from `Confirmed` to `Departed`.
    pub fn expire_confirmed_to_departed(&mut self, timeout: i64, now: i64) -> (ids: Vec<String>)
        requires
            old(self).wf(),
            0 <= timeout,
        ensures
            final(self).wf(),
            final(self).members@ == expire_map(
                old(self).members@,
                MemberState::Confirmed,
                MemberState::Departed,
                now,
                timeout,
            ),
            id_views(ids@) == due_ids(
                old(self).members@,
                MemberState::Confirmed,
                now,
                timeout,
            ),
    {
        self.expire_members(MemberState::Confirmed, MemberState::Departed, timeout, now)
    }
}

} // verus!
