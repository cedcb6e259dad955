use vstd::prelude::*;

use crate::db::{AddressesDb, StoreSyncAssociation};
use crate::error::ErrorKind;
use crate::incoming::{has_repeat, readable, view_matches, Payload, SyncAddressData};
use crate::interrupt::InterruptScope;
use crate::reconcile::planned;
use crate::record::opt_view;
use crate::telemetry::EngineIncoming;
use crate::transitions::{
    change_view, in_prefix, outgoing_of, planned_local, planned_mirror, reset_local, synced_mirror,
    wiped_local, with_override, OutgoingChange, OutgoingChangeset,
};
use crate::update_plan::UpdatePlan;
use crate::util::ServerTimestamp;

verus! {

/// The name of the collection that this store syncs.
pub open spec fn collection_spec() -> Seq<char> {
    seq!['p', 'a', 's', 's', 'w', 'o', 'r', 'd', 's']
}

/// One incoming pass went as follows: `data` are the views read from `inbound` against
/// the store `before`, `plan` is what reconciling them decided, and `after` is `before`
/// with `plan` applied at `now`.
pub open spec fn pass_matches(
    before: AddressesDb,
    after: AddressesDb,
    inbound: IncomingChangeset,
    data: Seq<SyncAddressData>,
    plan: UpdatePlan,
    now: i64,
) -> bool {
    &&& data.len() == readable(inbound.changes@).len()
    &&& forall|k: int|
        0 <= k < data.len() ==> view_matches(before, #[trigger] data[k], readable(inbound.changes@)[k])
    &&& plan@ == planned(before, data, inbound.timestamp.0, now)
    &&& forall|g: Seq<char>|
        #![trigger after.lv(g)]
        #![trigger after.mv(g)]
        after.lv(g) == planned_local(plan, before.lv(g), g, now) && after.mv(g) == planned_mirror(
            plan,
            before.lv(g),
            before.mv(g),
            g,
        )
}

/// A batch of incoming changes and the server time it was fetched at.
#[derive(Debug)]
pub struct IncomingChangeset {
    pub changes: Vec<(Payload, ServerTimestamp)>,
    pub timestamp: ServerTimestamp,
}

/// What to fetch from the server: the full records of a collection newer than a time.
#[derive(Debug, Clone)]
pub struct CollectionRequest {
    pub collection: String,
    pub full: bool,
    pub newer_than: ServerTimestamp,
}

/// The store as the sync transport sees it, with the interrupt scope of its session.
pub struct AddressesStore {
    pub db: AddressesDb,
    pub scope: InterruptScope,
}

impl AddressesStore {
    pub fn new(db: AddressesDb) -> (r: AddressesStore)
        ensures
            r.db == db,
    {
        let scope = db.begin_interrupt_scope();
        AddressesStore { db, scope }
    }

    pub fn collection_name(&self) -> (r: &'static str)
        ensures
            r@ == collection_spec(),
    {
        proof {
            reveal_strlit("passwords");
        }
        "passwords"
    }

    /// Runs one incoming pass: reads the batch, reconciles it with the store at local time
    /// `now`, applies the plan, and returns the changes the server does not have yet.
    /// A batch that names one identity twice fails; so does an interrupted pass. A failed
    /// pass leaves the store as it was.
    pub fn apply_incoming(
        &mut self,
        inbound: &IncomingChangeset,
        now: i64,
        telem: &mut EngineIncoming,
    ) -> (r: Result<OutgoingChangeset, ErrorKind>)
        requires
            old(self).db.wf(),
        ensures
            final(self).db.wf(),
            final(self).db.meta_spec() == old(self).db.meta_spec(),
            has_repeat(inbound.changes@) ==> r matches Err(ErrorKind::DuplicateGuid(_)),
            r matches Err(ErrorKind::DuplicateGuid(_)) ==> has_repeat(inbound.changes@)
                && *final(telem) == *old(telem),
            r matches Err(e) ==> ((e matches ErrorKind::DuplicateGuid(_)) || e
                == ErrorKind::Interrupted) && final(self).db.same_state(&old(self).db),
            r matches Ok(out) ==> out.timestamp == inbound.timestamp
                && out.changes@.map_values(|c: OutgoingChange| change_view(c)) == outgoing_of(
                final(self).db.local_rows(),
            ),
            r is Ok ==> exists|data: Seq<SyncAddressData>, plan: UpdatePlan|
                #[trigger] pass_matches(old(self).db, final(self).db, *inbound, data, plan, now),
    {
        let data = match self.db.fetch_address_data(&inbound.changes, telem, &self.scope) {
            Ok(d) => d,
            Err(e) => return Err(e),
        };
        let ghost before = self.db;
        let ghost d = data@;
        let plan = match self.db.reconcile(data, inbound.timestamp, now, telem, &self.scope) {
            Ok(p) => p,
            Err(e) => return Err(e),
        };
        let saved = self.db.save_tables();
        match plan.execute(&mut self.db, &self.scope, now) {
            Ok(()) => {},
            Err(e) => return Err(e),
        }
        assert(pass_matches(before, self.db, *inbound, d, plan, now));
        match self.db.fetch_outgoing(inbound.timestamp, &self.scope) {
            Ok(out) => Ok(out),
            Err(e) => {
                self.db.roll_back(saved, Ghost(before));
                Err(e)
            },
        }
    }

    /// Records that the server now holds `records_synced` as of `new_timestamp`.
    /// An interrupt leaves the store as it was and returns `Interrupted`.
    pub fn sync_finished(
        &mut self,
        new_timestamp: ServerTimestamp,
        records_synced: &Vec<String>,
    ) -> (r: Result<(), ErrorKind>)
        requires
            old(self).db.wf(),
        ensures
            final(self).db.wf(),
            r is Ok || r == Err::<(), ErrorKind>(ErrorKind::Interrupted),
            records_synced@.len() == 0 ==> r is Ok,
            r is Err ==> final(self).db.same_state(&old(self).db),
            r is Ok ==> forall|g: Seq<char>|
                #![trigger final(self).db.lv(g)]
                #![trigger final(self).db.mv(g)]
                if in_prefix(records_synced@, records_synced@.len() as int, g) {
                    final(self).db.local_of(g) is None && final(self).db.mv(g) == synced_mirror(
                        old(self).db.lv(g),
                        new_timestamp.0,
                    )
                } else {
                    final(self).db.local_of(g) == old(self).db.local_of(g)
                        && final(self).db.mirror_of(g) == old(self).db.mirror_of(g)
                },
            r is Ok ==> final(self).db.meta_spec().last_sync == Some(new_timestamp.0),
    {
        self.db.mark_as_synchronized(records_synced, new_timestamp.as_millis(), &self.scope)
    }

    /// A request for every record changed since the last sync (the epoch if none).
    pub fn get_collection_request(&self) -> (r: CollectionRequest)
        ensures
            r.collection@ == collection_spec(),
            r.full,
            r.newer_than.0 == match self.db.meta_spec().last_sync {
                Some(t) => t,
                None => 0,
            },
    {
        let since = match self.db.get_last_sync() {
            Some(t) => ServerTimestamp(t),
            None => ServerTimestamp(0),
        };
        proof {
            reveal_strlit("passwords");
        }
        CollectionRequest { collection: String::from_str("passwords"), full: true, newer_than: since }
    }

    /// The stored association with the server.
    pub fn get_sync_assoc(&self) -> (r: StoreSyncAssociation)
        ensures
            match (self.db.meta_spec().global_sync_id, self.db.meta_spec().collection_sync_id) {
                (Some(gid), Some(cid)) => r matches StoreSyncAssociation::Connected(ids)
                    && ids.global == gid && ids.coll == cid,
                _ => r is Disconnected,
            },
    {
        self.db.get_sync_assoc()
    }

    /// Forces the next sync to be a full one under the association `assoc`.
    pub fn reset(&mut self, assoc: &StoreSyncAssociation)
        requires
            old(self).db.wf(),
        ensures
            final(self).db.wf(),
            forall|g: Seq<char>|
                #[trigger] final(self).db.lv(g) == reset_local(old(self).db.lv(g), old(self).db.mv(g))
                    && final(self).db.mirror_of(g) is None,
            final(self).db.meta_spec().last_sync == Some(0i64),
            final(self).db.meta_spec().global_state is None,
            match assoc {
                StoreSyncAssociation::Disconnected => final(self).db.meta_spec().global_sync_id
                    is None && final(self).db.meta_spec().collection_sync_id is None,
                StoreSyncAssociation::Connected(ids) => opt_view(
                    final(self).db.meta_spec().global_sync_id,
                ) == Some(ids.global@) && opt_view(final(self).db.meta_spec().collection_sync_id)
                    == Some(ids.coll@),
            },
    {
        self.db.reset(assoc);
    }

    /// Deletes every record at local time `now`, on the server too. An interrupt leaves the
    /// store as it was and returns `Interrupted`.
    pub fn wipe(&mut self, now: i64) -> (r: Result<(), ErrorKind>)
        requires
            old(self).db.wf(),
        ensures
            final(self).db.wf(),
            r is Ok || r == Err::<(), ErrorKind>(ErrorKind::Interrupted),
            old(self).db.local_rows().len() == 0 && old(self).db.mirror_rows().len() == 0 ==> r is Ok,
            r is Err ==> final(self).db.same_state(&old(self).db),
            r is Ok ==> forall|g: Seq<char>|
                #[trigger] final(self).db.lv(g) == wiped_local(old(self).db.lv(g), old(self).db.mv(g), now)
                    && final(self).db.mv(g) == with_override(old(self).db.mv(g)),
            final(self).db.meta_spec() == old(self).db.meta_spec(),
    {
        self.db.wipe(&self.scope, now)
    }
}

} // verus!
