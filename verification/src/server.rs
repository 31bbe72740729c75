//! The shared state the sweeper works on: the membership table, the
//! rumor-heat table and the six per-category expiring rumor stores, held
//! together by explicit construction rather than ambient globals.

use vstd::prelude::*;

use crate::member::MemberList;
use crate::rumor::RumorHeat;
use crate::store::ExpiringStore;
use crate::store::retained;

verus! {

/// The structures shared between the sweeper and the gossip send and
/// receive paths. Rumor payloads are opaque to this core; the stores carry
/// them as plain strings.
pub struct Server {
    pub member_list: MemberList,
    pub rumor_heat: RumorHeat,
    pub departure_store: ExpiringStore<String>,
    pub election_store: ExpiringStore<String>,
    pub update_store: ExpiringStore<String>,
    pub service_store: ExpiringStore<String>,
    pub service_config_store: ExpiringStore<String>,
    pub service_file_store: ExpiringStore<String>,
}

impl Server {
    pub open spec fn wf(self) -> bool {
        &&& self.member_list.wf()
        &&& self.rumor_heat.wf()
        &&& self.departure_store.wf()
        &&& self.election_store.wf()
        &&& self.update_store.wf()
        &&& self.service_store.wf()
        &&& self.service_config_store.wf()
        &&& self.service_file_store.wf()
    }

    pub fn new() -> (r: Server)
        ensures
            r.wf(),
            r.member_list.members@.len() == 0,
            r.rumor_heat.entries@.len() == 0,
            r.departure_store.entries@.len() == 0,
            r.election_store.entries@.len() == 0,
            r.update_store.entries@.len() == 0,
            r.service_store.entries@.len() == 0,
            r.service_config_store.entries@.len() == 0,
            r.service_file_store.entries@.len() == 0,
    {
        Server {
            member_list: MemberList::new(),
            rumor_heat: RumorHeat::new(),
            departure_store: ExpiringStore::new(),
            election_store: ExpiringStore::new(),
            update_store: ExpiringStore::new(),
            service_store: ExpiringStore::new(),
            service_config_store: ExpiringStore::new(),
            service_file_store: ExpiringStore::new(),
        }
    }

    /// Purges every category store against the same single instant, so all
    /// categories age out against the same `now` within a cycle. Each
    /// store's outcome depends on that store's own entries alone: no purge
    /// crosses a category boundary, and nothing else is touched.
    pub fn purge_expired_stores(&mut self, now: i64)
        requires
            old(self).wf(),
        ensures
            final(self).wf(),
            final(self).departure_store.entries@ == retained(
                old(self).departure_store.entries@,
                now,
            ),
            final(self).election_store.entries@ == retained(
                old(self).election_store.entries@,
                now,
            ),
            final(self).update_store.entries@ == retained(old(self).update_store.entries@, now),
            final(self).service_store.entries@ == retained(old(self).service_store.entries@, now),
            final(self).service_config_store.entries@ == retained(
                old(self).service_config_store.entries@,
                now,
            ),
            final(self).service_file_store.entries@ == retained(
                old(self).service_file_store.entries@,
                now,
            ),
            final(self).member_list == old(self).member_list,
            final(self).rumor_heat == old(self).rumor_heat,
    {
        self.departure_store.purge_expired(now);
        self.election_store.purge_expired(now);
        self.update_store.purge_expired(now);
        self.service_store.purge_expired(now);
        self.service_config_store.purge_expired(now);
        self.service_file_store.purge_expired(now);
    }
}

} // verus!
