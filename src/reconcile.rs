use vstd::prelude::*;

use crate::db::{AddressesDb};
use crate::error::ErrorKind;
use crate::incoming::SyncAddressData;
use crate::interrupt::InterruptScope;
use crate::telemetry::{raised, EngineIncoming};
use crate::transitions::{first_dupe};
use crate::update_plan::{
    empty_plan, with_delete, with_mirror_insert, with_mirror_update, with_three_way_merge,
    with_two_way_merge, PlanView, UpdatePlan,
};
use crate::util::ServerTimestamp;

verus! {

/// What reconciling one incoming view adds to the plan `p`: a deletion removes both rows;
/// with mirror and local rows, a three-way merge; with a mirror row only, the mirror moves
/// to the remote record; with a local row only, a two-way merge; with neither, a two-way
/// merge with a duplicate local record if there is one, else a new mirror row.
pub open spec fn plan_one(
    db: AddressesDb,
    p: PlanView,
    d: SyncAddressData,
    server_now: i64,
    now: i64,
) -> PlanView {
    let ts = d.inbound.1.0;
    match d.inbound.0 {
        None => with_delete(p, d.guid@),
        Some(up) => match (d.mirror, d.local) {
            (Some(m), Some(l)) => with_three_way_merge(p, l@, m@, up@, ts, server_now, now),
            (Some(_), None) => with_mirror_update(p, up@, ts),
            (None, Some(l)) => with_two_way_merge(p, l.address@, up@, ts),
            (None, None) => match first_dupe(db.local_rows(), up@) {
                Some(x) => with_two_way_merge(p, x.address@, up@, ts),
                None => with_mirror_insert(p, up@, ts, false),
            },
        },
    }
}

/// The plan for the views `ds`, in order.
pub open spec fn planned(
    db: AddressesDb,
    ds: Seq<SyncAddressData>,
    server_now: i64,
    now: i64,
) -> PlanView
    decreases ds.len(),
{
    if ds.len() == 0 {
        empty_plan()
    } else {
        plan_one(db, planned(db, ds.drop_last(), server_now, now), ds.last(), server_now, now)
    }
}

/// The counts after one view: merges count as reconciled, other records as applied,
/// deletions as neither.
pub open spec fn count_one(t: EngineIncoming, d: SyncAddressData) -> EngineIncoming {
    match d.inbound.0 {
        None => t,
        Some(_) => if d.local is Some {
            EngineIncoming { reconciled: raised(t.reconciled, 1), ..t }
        } else {
            EngineIncoming { applied: raised(t.applied, 1), ..t }
        },
    }
}

pub open spec fn counted(t: EngineIncoming, ds: Seq<SyncAddressData>) -> EngineIncoming
    decreases ds.len(),
{
    if ds.len() == 0 {
        t
    } else {
        count_one(counted(t, ds.drop_last()), ds.last())
    }
}

impl AddressesDb {
    /// Decides, for each incoming view, how it merges with the store, and returns the
    /// changes as a plan. `server_now` is the server's time of the batch, `now` the local time.
    pub fn reconcile(
        &self,
        records: Vec<SyncAddressData>,
        server_now: ServerTimestamp,
        now: i64,
        telem: &mut EngineIncoming,
        scope: &InterruptScope,
    ) -> (r: Result<UpdatePlan, ErrorKind>)
        ensures
            r is Err ==> r == Err::<UpdatePlan, ErrorKind>(ErrorKind::Interrupted)
                && *final(telem) == *old(telem),
            records@.len() == 0 ==> r is Ok,
            r matches Ok(plan) ==> plan@ == planned(*self, records@, server_now.0, now)
                && *final(telem) == counted(*old(telem), records@),
    {
        let mut plan = UpdatePlan::new();
        let mut counts: EngineIncoming = *telem;
        let mut i: usize = 0;
        while i < records.len()
            invariant
                0 <= i <= records@.len(),
                plan@ == planned(*self, records@.subrange(0, i as int), server_now.0, now),
                *telem == *old(telem),
                counts == counted(*old(telem), records@.subrange(0, i as int)),
            decreases records@.len() - i,
        {
            if scope.was_interrupted() {
                return Err(ErrorKind::Interrupted);
            }
            let record = &records[i];
            assert(records@.subrange(0, i + 1).drop_last() =~= records@.subrange(0, i as int));
            let upstream_time = record.inbound.1;
            match &record.inbound.0 {
                None => {
                    plan.plan_delete(record.guid.clone());
                },
                Some(upstream) => {
                    match (&record.mirror, &record.local) {
                        (Some(mirror), Some(local)) => {
                            plan.plan_three_way_merge(
                                local.duplicate(),
                                mirror.duplicate(),
                                upstream.duplicate(),
                                upstream_time,
                                server_now,
                                now,
                            );
                            counts.reconciled(1);
                        },
                        (Some(_), None) => {
                            plan.plan_mirror_update(upstream.duplicate(), upstream_time);
                            counts.applied(1);
                        },
                        (None, Some(local)) => {
                            plan.plan_two_way_merge(
                                &local.address,
                                (upstream.duplicate(), upstream_time),
                            );
                            counts.reconciled(1);
                        },
                        (None, None) => {
                            match self.find_dupe(upstream) {
                                Some(dupe) => {
                                    plan.plan_two_way_merge(
                                        &dupe,
                                        (upstream.duplicate(), upstream_time),
                                    );
                                },
                                None => {
                                    plan.plan_mirror_insert(
                                        upstream.duplicate(),
                                        upstream_time,
                                        false,
                                    );
                                },
                            }
                            counts.applied(1);
                        },
                    }
                },
            }
            i = i + 1;
        }
        assert(records@.subrange(0, records@.len() as int) =~= records@);
        *telem = counts;
        Ok(plan)
    }
}

} // verus!
