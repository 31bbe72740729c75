//! The expiration sweeper: one repeating cycle that drives the time-driven
//! member transitions, re-arms rumor heat for the members moved, and purges
//! every expiring rumor store against a single instant.

use vstd::prelude::*;

use crate::member::MemberState;
use crate::member::due_ids;
use crate::member::expire_map;
use crate::member::id_views;
use crate::member::lemma_due_ids_contains;
use crate::member::lemma_expire_map_ids;
use crate::member::lemma_not_in_state_not_reported;
use crate::member::Member;
use crate::member::unique_ids;
use crate::rumor::HeatEntry;
use crate::rumor::ignited;
use crate::rumor::purged;
use crate::rumor::RumorKey;
use crate::rumor::RumorType;
use crate::server::Server;
use crate::store::retained;
use crate::timing::Timing;

verus! {

/// A membership-category rumor key for one member id, with no secondary
/// qualifier.
pub open spec fn is_member_key(k: RumorKey, id: Seq<char>) -> bool {
    k.kind == RumorType::Member && k.id@ == id && k.key@.len() == 0
}

/// The heat table's evolution over step one of a cycle: for each newly
/// confirmed id in turn, a membership rumor for that id was re-ignited.
pub open spec fn heat_after_confirms(
    pre: Seq<HeatEntry>,
    post: Seq<HeatEntry>,
    ids: Seq<Seq<char>>,
) -> bool
    decreases ids.len(),
{
    if ids.len() == 0 {
        post == pre
    } else {
        exists|mid: Seq<HeatEntry>, k: RumorKey|
            heat_after_confirms(pre, mid, ids.drop_last()) && is_member_key(k, ids.last()) && post
                == ignited(mid, k)
    }
}

/// The heat table's evolution over step two of a cycle: for each newly
/// departed id in turn, first every heat entry for that id was purged, then
/// a membership rumor for it was re-ignited.
pub open spec fn heat_after_departures(
    pre: Seq<HeatEntry>,
    post: Seq<HeatEntry>,
    ids: Seq<Seq<char>>,
) -> bool
    decreases ids.len(),
{
    if ids.len() == 0 {
        post == pre
    } else {
        exists|mid: Seq<HeatEntry>, k: RumorKey|
            heat_after_departures(pre, mid, ids.drop_last()) && is_member_key(k, ids.last())
                && post == ignited(purged(mid, ids.last()), k)
    }
}

proof fn lemma_heat_confirms_step(
    pre: Seq<HeatEntry>,
    mid: Seq<HeatEntry>,
    post: Seq<HeatEntry>,
    ids: Seq<Seq<char>>,
    id: Seq<char>,
    k: RumorKey,
)
    requires
        heat_after_confirms(pre, mid, ids),
        is_member_key(k, id),
        post == ignited(mid, k),
    ensures
        heat_after_confirms(pre, post, ids.push(id)),
{
    let t = ids.push(id);
    assert(t.drop_last() =~= ids);
    assert(t.last() == id);
    assert(heat_after_confirms(pre, mid, t.drop_last()) && is_member_key(k, t.last()) && post
        == ignited(mid, k));
}

proof fn lemma_heat_departures_step(
    pre: Seq<HeatEntry>,
    mid: Seq<HeatEntry>,
    post: Seq<HeatEntry>,
    ids: Seq<Seq<char>>,
    id: Seq<char>,
    k: RumorKey,
)
    requires
        heat_after_departures(pre, mid, ids),
        is_member_key(k, id),
        post == ignited(purged(mid, id), k),
    ensures
        heat_after_departures(pre, post, ids.push(id)),
{
    let t = ids.push(id);
    assert(t.drop_last() =~= ids);
    assert(t.last() == id);
    assert(heat_after_departures(pre, mid, t.drop_last()) && is_member_key(k, t.last()) && post
        == ignited(purged(mid, t.last()), k));
}

/// Everything one sweep cycle at instant `now` does to the shared state:
/// the two member transition passes with exactly their reported ids, the
/// heat re-arming for those ids, and every category store purged against
/// the same single `now`.
pub open spec fn cycle_post(
    pre: Server,
    timing: Timing,
    now: i64,
    post: Server,
    confirmed: Seq<Seq<char>>,
    departed: Seq<Seq<char>>,
) -> bool {
    let st = timing.suspicion_timeout_ms;
    let dt = timing.departure_timeout_ms;
    let m1 = expire_map(
        pre.member_list.members@,
        MemberState::Suspect,
        MemberState::Confirmed,
        now,
        st,
    );
    &&& confirmed == due_ids(pre.member_list.members@, MemberState::Suspect, now, st)
    &&& departed == due_ids(m1, MemberState::Confirmed, now, dt)
    &&& post.member_list.members@ == expire_map(
        m1,
        MemberState::Confirmed,
        MemberState::Departed,
        now,
        dt,
    )
    &&& (exists|mid: Seq<HeatEntry>|
        heat_after_confirms(pre.rumor_heat.entries@, mid, confirmed) && heat_after_departures(
            mid,
            post.rumor_heat.entries@,
            departed,
        ))
    &&& post.departure_store.entries@ == retained(pre.departure_store.entries@, now)
    &&& post.election_store.entries@ == retained(pre.election_store.entries@, now)
    &&& post.update_store.entries@ == retained(pre.update_store.entries@, now)
    &&& post.service_store.entries@ == retained(pre.service_store.entries@, now)
    &&& post.service_config_store.entries@ == retained(pre.service_config_store.entries@, now)
    &&& post.service_file_store.entries@ == retained(pre.service_file_store.entries@, now)
}

proof fn lemma_ignited_contains(h: Seq<HeatEntry>, k: RumorKey)
    ensures
        forall|x: HeatEntry| #[trigger] ignited(h, k).contains(x) ==> (h.contains(x) || (
        crate::rumor::key_matches(x.key, k) && x.heat == 0)),
{
    if crate::rumor::has_key(h, k) {
        assert forall|x: HeatEntry| #[trigger] ignited(h, k).contains(x) implies (h.contains(x)
            || (crate::rumor::key_matches(x.key, k) && x.heat == 0)) by {
            let j = choose|j: int| 0 <= j < ignited(h, k).len() && ignited(h, k)[j] == x;
            if crate::rumor::key_matches(h[j].key, k) {
                assert(x == HeatEntry { key: h[j].key, heat: 0u64 });
            } else {
                assert(x == h[j]);
                assert(h.contains(x));
            }
        }
    } else {
        crate::lemma_push_contains(h, HeatEntry { key: k, heat: 0u64 });
    }
}

/// After the departure pass, all that remains of a departed id's heat is
/// the freshly re-ignited membership rumor: every surviving heat entry
/// whose key carries that id is a membership-category key, with no
/// secondary qualifier, at heat zero.
pub proof fn lemma_departed_heat_reset(
    pre: Seq<HeatEntry>,
    post: Seq<HeatEntry>,
    ids: Seq<Seq<char>>,
    i: int,
)
    requires
        heat_after_departures(pre, post, ids),
        0 <= i < ids.len(),
        forall|j: int| i < j < ids.len() ==> ids[j] != ids[i],
    ensures
        forall|x: HeatEntry|
            #[trigger] post.contains(x) && x.key.id@ == ids[i] ==> is_member_key(x.key, ids[i])
                && x.heat == 0,
    decreases ids.len(),
{
    let (mid, k) = choose|mid: Seq<HeatEntry>, k: RumorKey|
        heat_after_departures(pre, mid, ids.drop_last()) && is_member_key(k, ids.last()) && post
            == ignited(purged(mid, ids.last()), k);
    let last_id = ids.last();
    let p1 = purged(mid, last_id);
    crate::rumor::lemma_purge_scoped(mid, last_id);
    crate::rumor::lemma_purged_props(mid, last_id);
    lemma_ignited_contains(p1, k);
    if i == ids.len() - 1 {
        assert forall|x: HeatEntry|
            #[trigger] post.contains(x) && x.key.id@ == ids[i] implies is_member_key(
            x.key,
            ids[i],
        ) && x.heat == 0 by {
            if p1.contains(x) {
                assert(x.key.id@ != last_id);
            } else {
                assert(crate::rumor::key_matches(x.key, k) && x.heat == 0);
            }
        }
    } else {
        assert(ids.drop_last()[i] == ids[i]);
        assert forall|j: int|
            i < j < ids.drop_last().len() implies ids.drop_last()[j] != ids.drop_last()[i] by {
            assert(ids.drop_last()[j] == ids[j]);
        }
        lemma_departed_heat_reset(pre, mid, ids.drop_last(), i);
        assert(ids[i] != last_id);
        assert forall|x: HeatEntry|
            #[trigger] post.contains(x) && x.key.id@ == ids[i] implies is_member_key(
            x.key,
            ids[i],
        ) && x.heat == 0 by {
            if p1.contains(x) {
                assert(mid.contains(x));
            } else {
                assert(crate::rumor::key_matches(x.key, k) && x.heat == 0);
                assert(x.key.id@ == last_id);
            }
        }
    }
}

/// Tombstone monotonicity over a full sweep cycle: a member already
/// `Departed` when the cycle starts is still exactly the same tombstone
/// after both transition passes, and its id is reported by neither pass.
pub proof fn lemma_tombstone_cycle(ms: Seq<Member>, st: i64, dt: i64, now: i64, i: int)
    requires
        unique_ids(ms),
        0 <= i < ms.len(),
        ms[i].state == MemberState::Departed,
    ensures
        expire_map(
            expire_map(ms, MemberState::Suspect, MemberState::Confirmed, now, st),
            MemberState::Confirmed,
            MemberState::Departed,
            now,
            dt,
        )[i] == ms[i],
        !due_ids(ms, MemberState::Suspect, now, st).contains(ms[i].id@),
        !due_ids(
            expire_map(ms, MemberState::Suspect, MemberState::Confirmed, now, st),
            MemberState::Confirmed,
            now,
            dt,
        ).contains(ms[i].id@),
{
    let m1 = expire_map(ms, MemberState::Suspect, MemberState::Confirmed, now, st);
    lemma_expire_map_ids(ms, MemberState::Suspect, MemberState::Confirmed, now, st);
    lemma_not_in_state_not_reported(ms, MemberState::Suspect, now, st, i);
    assert(m1[i] == ms[i]);
    lemma_not_in_state_not_reported(m1, MemberState::Confirmed, now, dt, i);
    assert(expire_map(m1, MemberState::Confirmed, MemberState::Departed, now, dt)[i] == m1[i]);
}

/// Within one cycle no id is reported both newly `Confirmed` and newly
/// `Departed`: a member confirmed in this cycle has its transition time
/// reset to the cycle's own `now`, so it cannot also satisfy the departure
/// timeout (taken as at least one millisecond) in the same cycle.
pub proof fn lemma_no_double_report(ms: Seq<Member>, st: i64, dt: i64, now: i64, id: Seq<char>)
    requires
        unique_ids(ms),
        1 <= dt,
    ensures
        !(due_ids(ms, MemberState::Suspect, now, st).contains(id) && due_ids(
            expire_map(ms, MemberState::Suspect, MemberState::Confirmed, now, st),
            MemberState::Confirmed,
            now,
            dt,
        ).contains(id)),
{
    let m1 = expire_map(ms, MemberState::Suspect, MemberState::Confirmed, now, st);
    lemma_expire_map_ids(ms, MemberState::Suspect, MemberState::Confirmed, now, st);
    lemma_due_ids_contains(ms, MemberState::Suspect, now, st, id);
    lemma_due_ids_contains(m1, MemberState::Confirmed, now, dt, id);
    if due_ids(ms, MemberState::Suspect, now, st).contains(id) && due_ids(
        m1,
        MemberState::Confirmed,
        now,
        dt,
    ).contains(id) {
        let i = choose|i: int|
            0 <= i < ms.len() && ms[i].id@ == id && crate::member::is_due(
                ms[i],
                MemberState::Suspect,
                now,
                st,
            );
        let j = choose|j: int|
            0 <= j < m1.len() && m1[j].id@ == id && crate::member::is_due(
                m1[j],
                MemberState::Confirmed,
                now,
                dt,
            );
        assert(m1[j].id@ == ms[j].id@);
        assert(j == i);
        assert(m1[i] == crate::member::advanced(ms[i], MemberState::Confirmed, now));
        assert(m1[i].last_state_change == now);
    }
}

/// Relies on chrono::offset::Utc::now (read as milliseconds since the Unix
/// epoch) for the wall-clock reading; nothing is assumed of the value it
/// returns.
#[verifier::external_body]
fn now_millis() -> i64 {
    chrono::Utc::now().timestamp_millis()
}

/// The sweeper: owns shared references to its collaborators and drives one
/// expiration pass per cycle. The repeating loop with its fixed inter-cycle
/// delay lives with the caller; each cycle's work is `run_cycle`.
pub struct Expire {
    pub server: Server,
    pub timing: Timing,
}

impl Expire {
    pub open spec fn wf(self) -> bool {
        self.server.wf() && self.timing.wf()
    }

    pub fn new(server: Server, timing: Timing) -> (r: Expire)
        ensures
            r.server == server,
            r.timing == timing,
    {
        Expire { server, timing }
    }

    /// One sweep cycle against the instant `now`, strictly in order:
    /// members due out of `Suspect` are confirmed and a membership rumor is
    /// re-ignited for each; members due out of `Confirmed` are departed,
    /// each one's heat purged wholesale and then a membership rumor
    /// re-ignited; finally every category store is purged against the same
    /// `now`. Returns the ids newly confirmed and the ids newly departed.
    pub fn run_cycle(&mut self, now: i64) -> (r: (Vec<String>, Vec<String>))
        requires
            old(self).wf(),
        ensures
            final(self).wf(),
            final(self).timing == old(self).timing,
            cycle_post(
                old(self).server,
                old(self).timing,
                now,
                final(self).server,
                id_views(r.0@),
                id_views(r.1@),
            ),
    {
        let ghost pre_server = self.server;
        let ghost pre_timing = self.timing;

        let st = self.timing.suspicion_timeout_duration();
        let newly_confirmed = self.server.member_list.expire_suspect_to_confirmed(st, now);
        let ghost cids = id_views(newly_confirmed@);
        let ghost h0 = self.server.rumor_heat.entries@;
        let ghost ml1 = self.server.member_list;

        let n = newly_confirmed.len();
        let mut i: usize = 0;
        while i < n
            invariant
                i <= n,
                n == newly_confirmed@.len(),
                cids == id_views(newly_confirmed@),
                self.server.member_list == ml1,
                self.server.member_list.wf(),
                self.timing == pre_timing,
                self.server.rumor_heat.wf(),
                heat_after_confirms(h0, self.server.rumor_heat.entries@, cids.take(i as int)),
                self.server.departure_store == pre_server.departure_store,
                self.server.election_store == pre_server.election_store,
                self.server.update_store == pre_server.update_store,
                self.server.service_store == pre_server.service_store,
                self.server.service_config_store == pre_server.service_config_store,
                self.server.service_file_store == pre_server.service_file_store,
                pre_server.wf(),
            decreases n - i,
        {
            let id_ref = &newly_confirmed[i];
            let key = RumorKey::new(RumorType::Member, id_ref.as_str(), "");
            let ghost hmid = self.server.rumor_heat.entries@;
            self.server.rumor_heat.start_hot_rumor(key);
            proof {
                reveal_strlit("");
                assert(cids[i as int] == newly_confirmed@[i as int]@);
                assert(is_member_key(key, cids[i as int]));
                lemma_heat_confirms_step(
                    h0,
                    hmid,
                    self.server.rumor_heat.entries@,
                    cids.take(i as int),
                    cids[i as int],
                    key,
                );
                assert(cids.take(i as int).push(cids[i as int]) =~= cids.take(i as int + 1));
            }
            i += 1;
        }
        proof {
            assert(cids.take(n as int) =~= cids);
        }
        let ghost h1 = self.server.rumor_heat.entries@;

        let dt = self.timing.departure_timeout_duration();
        let newly_departed = self.server.member_list.expire_confirmed_to_departed(dt, now);
        let ghost dids = id_views(newly_departed@);
        let ghost ml2 = self.server.member_list;

        let nd = newly_departed.len();
        let mut j: usize = 0;
        while j < nd
            invariant
                j <= nd,
                nd == newly_departed@.len(),
                dids == id_views(newly_departed@),
                self.server.member_list == ml2,
                self.server.member_list.wf(),
                self.timing == pre_timing,
                self.server.rumor_heat.wf(),
                heat_after_departures(h1, self.server.rumor_heat.entries@, dids.take(j as int)),
                self.server.departure_store == pre_server.departure_store,
                self.server.election_store == pre_server.election_store,
                self.server.update_store == pre_server.update_store,
                self.server.service_store == pre_server.service_store,
                self.server.service_config_store == pre_server.service_config_store,
                self.server.service_file_store == pre_server.service_file_store,
                pre_server.wf(),
            decreases nd - j,
        {
            let id_ref = &newly_departed[j];
            let ghost hmid = self.server.rumor_heat.entries@;
            self.server.rumor_heat.purge(id_ref);
            let key = RumorKey::new(RumorType::Member, id_ref.as_str(), "");
            self.server.rumor_heat.start_hot_rumor(key);
            proof {
                reveal_strlit("");
                assert(dids[j as int] == newly_departed@[j as int]@);
                assert(is_member_key(key, dids[j as int]));
                lemma_heat_departures_step(
                    h1,
                    hmid,
                    self.server.rumor_heat.entries@,
                    dids.take(j as int),
                    dids[j as int],
                    key,
                );
                assert(dids.take(j as int).push(dids[j as int]) =~= dids.take(j as int + 1));
            }
            j += 1;
        }
        proof {
            assert(dids.take(nd as int) =~= dids);
        }

        self.server.purge_expired_stores(now);

        proof {
            assert(heat_after_confirms(h0, h1, cids) && heat_after_departures(
                h1,
                self.server.rumor_heat.entries@,
                dids,
            ));
        }
        (newly_confirmed, newly_departed)
    }

    /// One full sweep cycle against the wall clock: the instant is read
    /// once and used for the whole cycle.
    pub fn run_round(&mut self) -> (r: (Vec<String>, Vec<String>))
        requires
            old(self).wf(),
        ensures
            final(self).wf(),
            final(self).timing == old(self).timing,
            exists|now: i64|
                #[trigger] cycle_post(
                    old(self).server,
                    old(self).timing,
                    now,
                    final(self).server,
                    id_views(r.0@),
                    id_views(r.1@),
                ),
    {
        let now = now_millis();
        let r = self.run_cycle(now);
        r
    }
}

} // verus!
