use vstd::prelude::*;

use crate::db::{AddressesDb};
use crate::error::ErrorKind;
use crate::interrupt::InterruptScope;
use crate::merge::three_way_of;
use crate::record::{Address, AddressView, LocalAddress, LocalView, MirrorAddress, MirrorView};
use crate::transitions::{planned_local, planned_mirror};
use crate::util::{age, age_ms, ServerTimestamp};

verus! {

/// The changes that reconciling one batch decided on, not yet applied.
#[derive(Debug, Clone)]
pub struct UpdatePlan {
    pub delete_mirror: Vec<String>,
    pub delete_local: Vec<String>,
    pub local_updates: Vec<MirrorAddress>,
    /// A record, its server time in milliseconds, and whether a local row overrides it.
    pub mirror_inserts: Vec<(Address, i64, bool)>,
    pub mirror_updates: Vec<(Address, i64)>,
}

pub struct PlanView {
    pub delete_mirror: Seq<Seq<char>>,
    pub delete_local: Seq<Seq<char>>,
    pub local_updates: Seq<MirrorView>,
    pub mirror_inserts: Seq<(AddressView, i64, bool)>,
    pub mirror_updates: Seq<(AddressView, i64)>,
}

impl View for UpdatePlan {
    type V = PlanView;

    open spec fn view(&self) -> PlanView {
        PlanView {
            delete_mirror: self.delete_mirror@.map_values(|s: String| s@),
            delete_local: self.delete_local@.map_values(|s: String| s@),
            local_updates: self.local_updates@.map_values(|m: MirrorAddress| m@),
            mirror_inserts: self.mirror_inserts@.map_values(|e: (Address, i64, bool)| (e.0@, e.1, e.2)),
            mirror_updates: self.mirror_updates@.map_values(|e: (Address, i64)| (e.0@, e.1)),
        }
    }
}

pub open spec fn empty_plan() -> PlanView {
    PlanView {
        delete_mirror: Seq::empty(),
        delete_local: Seq::empty(),
        local_updates: Seq::empty(),
        mirror_inserts: Seq::empty(),
        mirror_updates: Seq::empty(),
    }
}

/// Both rows of `g` go.
pub open spec fn with_delete(p: PlanView, g: Seq<char>) -> PlanView {
    PlanView { delete_local: p.delete_local.push(g), delete_mirror: p.delete_mirror.push(g), ..p }
}

/// The mirror row takes the remote record `a` of server time `ts`.
pub open spec fn with_mirror_update(p: PlanView, a: AddressView, ts: i64) -> PlanView {
    PlanView { mirror_updates: p.mirror_updates.push((a, ts)), ..p }
}

/// A mirror row is made for the remote record `a`.
pub open spec fn with_mirror_insert(p: PlanView, a: AddressView, ts: i64, ov: bool) -> PlanView {
    PlanView { mirror_inserts: p.mirror_inserts.push((a, ts, ov)), ..p }
}

/// With no common ancestor, the newer password wins: a newer local record stays and
/// overrides the remote one, else the remote one replaces it.
pub open spec fn with_two_way_merge(p: PlanView, local: AddressView, up: AddressView, ts: i64) -> PlanView {
    let ov = local.time_password_changed > up.time_password_changed;
    let q = with_mirror_insert(p, up, ts, ov);
    if ov {
        q
    } else {
        PlanView { delete_local: q.delete_local.push(local.guid), ..q }
    }
}

/// Whether the remote edit is the more recent one: its age on the server clock is below
/// the local edit's age on the local clock.
pub open spec fn remote_is_newer(
    local: LocalView,
    up_time: i64,
    server_now: i64,
    now: i64,
) -> bool {
    age(server_now, up_time) < age(now, local.local_modified)
}

/// The merged record of a three-way merge, over the mirror row `shared`.
pub open spec fn merged_row(
    local: LocalView,
    shared: MirrorView,
    up: AddressView,
    up_time: i64,
    server_now: i64,
    now: i64,
) -> MirrorView {
    MirrorView {
        address: three_way_of(
            local.address,
            shared.address,
            up,
            remote_is_newer(local, up_time, server_now, now),
        ),
        server_modified: up_time,
        is_overridden: shared.is_overridden,
    }
}

/// The mirror moves to the remote record and the local row takes the merge.
pub open spec fn with_three_way_merge(
    p: PlanView,
    local: LocalView,
    shared: MirrorView,
    up: AddressView,
    up_time: i64,
    server_now: i64,
    now: i64,
) -> PlanView {
    PlanView {
        mirror_updates: p.mirror_updates.push((up, up_time)),
        local_updates: p.local_updates.push(merged_row(local, shared, up, up_time, server_now, now)),
        ..p
    }
}

impl UpdatePlan {
    pub fn new() -> (r: UpdatePlan)
        ensures
            r@ == empty_plan(),
    {
        let r = UpdatePlan {
            delete_mirror: Vec::new(),
            delete_local: Vec::new(),
            local_updates: Vec::new(),
            mirror_inserts: Vec::new(),
            mirror_updates: Vec::new(),
        };
        assert(r@.delete_mirror =~= Seq::empty());
        assert(r@.delete_local =~= Seq::empty());
        assert(r@.local_updates =~= Seq::empty());
        assert(r@.mirror_inserts =~= Seq::empty());
        assert(r@.mirror_updates =~= Seq::empty());
        r
    }

    /// Plans a merge of a remote record with a local one that has no common ancestor.
    pub fn plan_two_way_merge(&mut self, local: &Address, upstream: (Address, ServerTimestamp))
        ensures
            final(self)@ == with_two_way_merge(old(self)@, local@, upstream.0@, upstream.1.0),
    {
        let is_override = local.time_password_changed > upstream.0.time_password_changed;
        let ghost p = self@;
        self.mirror_inserts.push((upstream.0, upstream.1.as_millis(), is_override));
        assert(self@.mirror_inserts =~= p.mirror_inserts.push((upstream.0@, upstream.1.0, is_override)));
        assert(self@.delete_local =~= p.delete_local);
        if !is_override {
            self.delete_local.push(local.guid.clone());
            assert(self@.delete_local =~= p.delete_local.push(local.guid@));
        }
        assert(self@.delete_mirror =~= p.delete_mirror);
        assert(self@.local_updates =~= p.local_updates);
        assert(self@.mirror_updates =~= p.mirror_updates);
    }

    /// Plans a three-way merge of the local row, its mirror row and the remote record.
    /// Where both sides changed a field, the more recent edit wins; `now` is the local time.
    pub fn plan_three_way_merge(
        &mut self,
        local: LocalAddress,
        shared: MirrorAddress,
        upstream: Address,
        upstream_time: ServerTimestamp,
        server_now: ServerTimestamp,
        now: i64,
    )
        ensures
            final(self)@ == with_three_way_merge(
                old(self)@,
                local@,
                shared@,
                upstream@,
                upstream_time.0,
                server_now.0,
                now,
            ),
    {
        let local_age = age_ms(now, local.local_modified);
        let remote_age = age_ms(server_now.as_millis(), upstream_time.as_millis());
        let local_delta = local.address.delta(&shared.address);
        let upstream_delta = upstream.delta(&shared.address);
        let merged_delta = local_delta.merge(upstream_delta, remote_age < local_age);
        let ghost p = self@;
        self.mirror_updates.push((upstream, upstream_time.as_millis()));
        let mut new = shared;
        new.address.apply_delta(merged_delta);
        new.server_modified = upstream_time.as_millis();
        self.local_updates.push(new);
        assert(self@.mirror_updates =~= p.mirror_updates.push((upstream@, upstream_time.0)));
        assert(self@.local_updates =~= p.local_updates.push(
            merged_row(local@, shared@, upstream@, upstream_time.0, server_now.0, now),
        ));
        assert(self@.delete_mirror =~= p.delete_mirror);
        assert(self@.delete_local =~= p.delete_local);
        assert(self@.mirror_inserts =~= p.mirror_inserts);
    }

    /// Applies the plan to `db` at local time `now`.
    /// An interrupt leaves `db` as it was and returns `Interrupted`.
    pub fn execute(&self, db: &mut AddressesDb, scope: &InterruptScope, now: i64) -> (r: Result<
        (),
        ErrorKind,
    >)
        requires
            old(db).wf(),
        ensures
            final(db).wf(),
            final(db).meta_spec() == old(db).meta_spec(),
            r is Ok || r == Err::<(), ErrorKind>(ErrorKind::Interrupted),
            r is Err ==> final(db).same_state(old(db)),
            r is Ok ==> forall|g: Seq<char>|
                #![trigger final(db).lv(g)]
                #![trigger final(db).mv(g)]
                final(db).lv(g) == planned_local(*self, old(db).lv(g), g, now) && final(db).mv(g)
                    == planned_mirror(*self, old(db).lv(g), old(db).mv(g), g),
    {
        db.execute_plan(self, scope, now)
    }

    /// Plans the removal of both rows of `id`.
    pub fn plan_delete(&mut self, id: String)
        ensures
            final(self)@ == with_delete(old(self)@, id@),
    {
        let ghost p = self@;
        self.delete_local.push(id.clone());
        self.delete_mirror.push(id);
        assert(self@.delete_local =~= p.delete_local.push(id@));
        assert(self@.delete_mirror =~= p.delete_mirror.push(id@));
        assert(self@.local_updates =~= p.local_updates);
        assert(self@.mirror_inserts =~= p.mirror_inserts);
        assert(self@.mirror_updates =~= p.mirror_updates);
    }

    /// Plans moving the mirror row to the remote record.
    pub fn plan_mirror_update(&mut self, address: Address, time: ServerTimestamp)
        ensures
            final(self)@ == with_mirror_update(old(self)@, address@, time.0),
    {
        let ghost p = self@;
        self.mirror_updates.push((address, time.as_millis()));
        assert(self@.mirror_updates =~= p.mirror_updates.push((address@, time.0)));
        assert(self@.delete_local =~= p.delete_local);
        assert(self@.delete_mirror =~= p.delete_mirror);
        assert(self@.local_updates =~= p.local_updates);
        assert(self@.mirror_inserts =~= p.mirror_inserts);
    }

    /// Plans a new mirror row for the remote record.
    pub fn plan_mirror_insert(&mut self, address: Address, time: ServerTimestamp, is_override: bool)
        ensures
            final(self)@ == with_mirror_insert(old(self)@, address@, time.0, is_override),
    {
        let ghost p = self@;
        self.mirror_inserts.push((address, time.as_millis(), is_override));
        assert(self@.mirror_inserts =~= p.mirror_inserts.push((address@, time.0, is_override)));
        assert(self@.delete_local =~= p.delete_local);
        assert(self@.delete_mirror =~= p.delete_mirror);
        assert(self@.local_updates =~= p.local_updates);
        assert(self@.mirror_updates =~= p.mirror_updates);
    }
}

} // verus!
