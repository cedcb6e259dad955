use vstd::prelude::*;

use crate::record::{
    invalid_reason, max_status, Address, AddressView, LocalAddress, LocalView, MirrorAddress,
    MirrorView, SyncStatus,
};
use crate::table::{find, Keyed};
use crate::update_plan::UpdatePlan;
use crate::util::{contains_text, host_port_text, url_host_and_port, valid_sync_guid, ServerTimestamp};

verus! {

/// A count increased by one, held at the largest value.
pub open spec fn bump(n: i64) -> i64 {
    if n < i64::MAX {
        (n + 1) as i64
    } else {
        n
    }
}

pub(crate) fn bump_exec(n: i64) -> (r: i64)
    ensures
        r == bump(n),
{
    if n < i64::MAX {
        n + 1
    } else {
        n
    }
}

/// The record a reader sees for one guid: the live local row, else the mirror row that
/// no local row overrides.
pub open spec fn visible_of(l: Option<LocalView>, m: Option<MirrorView>) -> Option<AddressView> {
    if l is Some && !l.unwrap().is_deleted {
        Some(l.unwrap().address)
    } else if l is None && m is Some && !m.unwrap().is_overridden {
        Some(m.unwrap().address)
    } else {
        None
    }
}

/// The mirror row marked as overridden by a local row.
pub open spec fn with_override(m: Option<MirrorView>) -> Option<MirrorView> {
    match m {
        Some(x) => Some(MirrorView { is_overridden: true, ..x }),
        None => None,
    }
}

/// The local row that a copy of a mirror row starts as.
pub open spec fn overlay_from_mirror(m: MirrorView) -> LocalView {
    LocalView { address: m.address, local_modified: 0, is_deleted: false, sync_status: SyncStatus::New }
}

/// The local row of a guid, or a fresh copy of its mirror row.
pub open spec fn overlay_of(l: Option<LocalView>, m: Option<MirrorView>) -> Option<LocalView> {
    match l {
        Some(x) => Some(x),
        None => match m {
            Some(y) => Some(overlay_from_mirror(y)),
            None => None,
        },
    }
}

/// A record with its sensitive fields cleared.
pub open spec fn cleared(a: AddressView) -> AddressView {
    AddressView { hostname: Seq::empty(), username: Seq::empty(), password: Seq::empty(), ..a }
}

/// A local row turned into a tombstone at `now`.
pub open spec fn tombstone_of(l: LocalView, now: i64) -> LocalView {
    LocalView {
        address: cleared(l.address),
        local_modified: now,
        is_deleted: true,
        sync_status: SyncStatus::Changed,
    }
}

/// A tombstone made at `now` for a record that only the mirror holds.
pub open spec fn tombstone_from_mirror(m: MirrorView, now: i64) -> LocalView {
    LocalView {
        address: AddressView {
            guid: m.address.guid,
            hostname: Seq::empty(),
            http_realm: None,
            form_submit_url: None,
            username_field: Seq::empty(),
            password_field: Seq::empty(),
            username: Seq::empty(),
            password: Seq::empty(),
            times_used: 0,
            time_created: m.address.time_created,
            time_last_used: 0,
            time_password_changed: now,
        },
        local_modified: now,
        is_deleted: true,
        sync_status: SyncStatus::Changed,
    }
}

/// A local row after its record was used at `now`.
pub open spec fn touched(l: LocalView, now: i64) -> LocalView {
    LocalView {
        address: AddressView {
            time_last_used: now,
            times_used: bump(l.address.times_used),
            ..l.address
        },
        local_modified: now,
        ..l
    }
}

/// A local row after the record `a` was written over it at `now`.
pub open spec fn updated(l: LocalView, a: AddressView, now: i64) -> LocalView {
    LocalView {
        address: AddressView {
            guid: l.address.guid,
            time_created: l.address.time_created,
            time_last_used: now,
            times_used: bump(l.address.times_used),
            time_password_changed: if l.address.password == a.password {
                l.address.time_password_changed
            } else {
                now
            },
            ..a
        },
        local_modified: now,
        is_deleted: l.is_deleted,
        sync_status: max_status(l.sync_status, SyncStatus::Changed),
    }
}

/// The local row of a guid after a deletion at `now`: a never-synced row goes, any other
/// becomes a tombstone, and a record only the mirror holds gets a new tombstone.
pub open spec fn deleted_local(l: Option<LocalView>, m: Option<MirrorView>, now: i64) -> Option<
    LocalView,
> {
    match l {
        Some(x) => if x.sync_status == SyncStatus::New {
            match m {
                Some(y) => Some(tombstone_from_mirror(y, now)),
                None => None,
            }
        } else {
            Some(tombstone_of(x, now))
        },
        None => match m {
            Some(y) => Some(tombstone_from_mirror(y, now)),
            None => None,
        },
    }
}

/// The record that `add` stores: `a` under guid `g`, with its times set to `now`.
pub open spec fn added(a: AddressView, g: Seq<char>, now: i64) -> AddressView {
    AddressView {
        guid: g,
        time_created: now,
        time_password_changed: now,
        time_last_used: now,
        times_used: 1,
        ..a
    }
}

/// A new, never-synced local row.
pub open spec fn new_local(a: AddressView, now: i64) -> LocalView {
    LocalView { address: a, local_modified: now, is_deleted: false, sync_status: SyncStatus::New }
}

/// The local row of a guid after a wipe at `now`: never-synced rows go, live rows become
/// tombstones, existing tombstones are cleared and stamped again, and records only the mirror
/// holds get one.
pub open spec fn wiped_local(l: Option<LocalView>, m: Option<MirrorView>, now: i64) -> Option<
    LocalView,
> {
    match l {
        Some(x) => if x.sync_status == SyncStatus::New {
            match m {
                Some(y) => Some(tombstone_from_mirror(y, now)),
                None => None,
            }
        } else {
            Some(tombstone_of(x, now))
        },
        None => match m {
            Some(y) => Some(tombstone_from_mirror(y, now)),
            None => None,
        },
    }
}

/// The local row of a guid after a reset: every row, and every copy of a mirror row,
/// is never-synced.
pub open spec fn reset_local(l: Option<LocalView>, m: Option<MirrorView>) -> Option<LocalView> {
    match l {
        Some(x) => Some(LocalView { sync_status: SyncStatus::New, ..x }),
        None => match m {
            Some(y) => Some(overlay_from_mirror(y)),
            None => None,
        },
    }
}

/// The mirror row of a guid once the server has its local row at time `ts`.
pub open spec fn synced_mirror(l: Option<LocalView>, ts: i64) -> Option<MirrorView> {
    match l {
        Some(x) => if x.is_deleted {
            None
        } else {
            Some(MirrorView { address: x.address, server_modified: ts, is_overridden: false })
        },
        None => None,
    }
}

/// Some entry of `keys` before index `i` is `g`.
pub open spec fn in_prefix(keys: Seq<String>, i: int, g: Seq<char>) -> bool {
    exists|j: int| 0 <= j < i && #[trigger] keys[j]@ == g
}

/// Extending the prefix by the entry at `i` adds exactly that entry's key.
pub proof fn lemma_in_prefix_step(keys: Seq<String>, i: int, g: Seq<char>)
    requires
        0 <= i < keys.len(),
    ensures
        in_prefix(keys, i + 1, g) == (in_prefix(keys, i, g) || keys[i]@ == g),
{
    if in_prefix(keys, i + 1, g) && keys[i]@ != g {
        let j = choose|j: int| 0 <= j < i + 1 && #[trigger] keys[j]@ == g;
        assert(j < i && keys[j]@ == g);
    }
    if in_prefix(keys, i, g) {
        let j = choose|j: int| 0 <= j < i && #[trigger] keys[j]@ == g;
        assert(keys[j]@ == g);
    }
    if keys[i]@ == g {
        assert(keys[i]@ == g);
    }
}

/// `x`, or `y` where `x` is zero: a zero counts as absent.
pub open spec fn coalesce(x: i64, y: i64) -> i64 {
    if x != 0 {
        x
    } else {
        y
    }
}

/// A mirror row after the remote record `a` of server time `ts` was written over it.
pub open spec fn mirror_updated(m: MirrorView, a: AddressView, ts: i64) -> MirrorView {
    MirrorView {
        address: AddressView {
            guid: m.address.guid,
            times_used: coalesce(a.times_used, m.address.times_used),
            time_last_used: coalesce(a.time_last_used, m.address.time_last_used),
            time_password_changed: coalesce(
                a.time_password_changed,
                m.address.time_password_changed,
            ),
            time_created: coalesce(a.time_created, m.address.time_created),
            ..a
        },
        server_modified: ts,
        is_overridden: m.is_overridden,
    }
}

/// A local row after the merged record `m`, all fields but the guid, replaced it at `now`.
pub open spec fn local_replaced(l: LocalView, m: MirrorView, now: i64) -> LocalView {
    LocalView {
        address: AddressView { guid: l.address.guid, ..m.address },
        local_modified: now,
        is_deleted: l.is_deleted,
        sync_status: max_status(l.sync_status, SyncStatus::Changed),
    }
}

/// The mirror row of `g` after the updates `ups`, in order; only an existing row changes.
pub open spec fn mirror_after_updates(
    m: Option<MirrorView>,
    g: Seq<char>,
    ups: Seq<(Address, i64)>,
) -> Option<MirrorView>
    decreases ups.len(),
{
    if ups.len() == 0 {
        m
    } else {
        let prev = mirror_after_updates(m, g, ups.drop_last());
        let e = ups.last();
        if e.0.guid@ == g && prev is Some {
            Some(mirror_updated(prev.unwrap(), e.0@, e.1))
        } else {
            prev
        }
    }
}

/// The mirror row of `g` after the inserts `ins`, in order; only a missing row is made,
/// overridden where the plan says so or a local row exists.
pub open spec fn mirror_after_inserts(
    m: Option<MirrorView>,
    g: Seq<char>,
    has_local: bool,
    ins: Seq<(Address, i64, bool)>,
) -> Option<MirrorView>
    decreases ins.len(),
{
    if ins.len() == 0 {
        m
    } else {
        let prev = mirror_after_inserts(m, g, has_local, ins.drop_last());
        let e = ins.last();
        if e.0.guid@ == g && prev is None {
            Some(MirrorView { address: e.0@, server_modified: e.1, is_overridden: e.2 || has_local })
        } else {
            prev
        }
    }
}

/// The local row of `g` after the replacements `ups` at `now`; only an existing row changes.
pub open spec fn local_after_updates(
    l: Option<LocalView>,
    g: Seq<char>,
    ups: Seq<MirrorAddress>,
    now: i64,
) -> Option<LocalView>
    decreases ups.len(),
{
    if ups.len() == 0 {
        l
    } else {
        let prev = local_after_updates(l, g, ups.drop_last(), now);
        let e = ups.last();
        if e.address.guid@ == g && prev is Some {
            Some(local_replaced(prev.unwrap(), e@, now))
        } else {
            prev
        }
    }
}

/// The local row of `g` once `plan` has been applied at `now`.
pub open spec fn planned_local(plan: UpdatePlan, l: Option<LocalView>, g: Seq<char>, now: i64) -> Option<
    LocalView,
> {
    let l1 = if in_prefix(plan.delete_local@, plan.delete_local@.len() as int, g) {
        None
    } else {
        l
    };
    local_after_updates(l1, g, plan.local_updates@, now)
}

/// The mirror row of `g` once `plan` has been applied.
pub open spec fn planned_mirror(
    plan: UpdatePlan,
    l: Option<LocalView>,
    m: Option<MirrorView>,
    g: Seq<char>,
) -> Option<MirrorView> {
    let l1 = if in_prefix(plan.delete_local@, plan.delete_local@.len() as int, g) {
        None
    } else {
        l
    };
    let m1 = if in_prefix(plan.delete_mirror@, plan.delete_mirror@.len() as int, g) {
        None
    } else {
        m
    };
    mirror_after_inserts(mirror_after_updates(m1, g, plan.mirror_updates@), g, l1 is Some, plan.mirror_inserts@)
}

/// The `host` or `host:port` of a record's form target, where it parses as a URL.
pub open spec fn form_target(a: AddressView) -> Option<Seq<char>> {
    match a.form_submit_url {
        Some(u) => match url_host_and_port(u) {
            Some((h, p)) => Some(host_port_text(h, p)),
            None => None,
        },
        None => None,
    }
}

/// Whether the stored record `l` looks like the same credential as the incoming `a`, given
/// the `host:port` `target` of `a`'s form target: same origin, realm and username, and a
/// form target that is empty or holds `target` (or none at all where there is no target).
pub open spec fn is_dupe_for(l: AddressView, a: AddressView, target: Option<Seq<char>>) -> bool {
    &&& l.hostname == a.hostname
    &&& l.http_realm == a.http_realm
    &&& l.username == a.username
    &&& match target {
        Some(hp) => match l.form_submit_url {
            Some(f) => f.len() == 0 || contains_text(f, hp),
            None => false,
        },
        None => l.form_submit_url is None,
    }
}

/// The first local row in `rows` that is a duplicate of `a`, given `a`'s form target
/// `target`.
pub open spec fn first_dupe_for(
    rows: Seq<LocalAddress>,
    a: AddressView,
    target: Option<Seq<char>>,
) -> Option<LocalAddress>
    decreases rows.len(),
{
    if rows.len() == 0 {
        None
    } else {
        let prev = first_dupe_for(rows.drop_last(), a, target);
        if prev is Some {
            prev
        } else if is_dupe_for(rows.last().address@, a, target) {
            Some(rows.last())
        } else {
            None
        }
    }
}

/// The first local row in `rows` that is a duplicate of `a`.
pub open spec fn first_dupe(rows: Seq<LocalAddress>, a: AddressView) -> Option<LocalAddress> {
    first_dupe_for(rows, a, form_target(a))
}

/// Whether `keys[i]` already occurs before index `i`.
pub fn seen_before(keys: &Vec<String>, i: usize) -> (r: bool)
    requires
        i < keys@.len(),
    ensures
        r == in_prefix(keys@, i as int, keys@[i as int]@),
{
    let mut j: usize = 0;
    while j < i
        invariant
            0 <= j <= i < keys@.len(),
            forall|k: int| 0 <= k < j ==> #[trigger] keys@[k]@ != keys@[i as int]@,
        decreases i - j,
    {
        if keys[j].eq(&keys[i]) {
            return true;
        }
        j = j + 1;
    }
    false
}

/// The sort index of an outgoing tombstone: large, so that deletions go first.
pub const TOMBSTONE_SORTINDEX: i32 = 5_000_000;

/// The sort index of an outgoing live record.
pub const DEFAULT_SORTINDEX: i32 = 1;

/// One change for the server: a record, or a tombstone when `record` is `None`.
#[derive(Debug, Clone)]
pub struct OutgoingChange {
    pub guid: String,
    pub record: Option<Address>,
    pub sortindex: i32,
}

/// The outgoing changes of a collection as of a server time.
#[derive(Debug, Clone)]
pub struct OutgoingChangeset {
    pub collection: String,
    pub timestamp: ServerTimestamp,
    pub changes: Vec<OutgoingChange>,
}

pub open spec fn change_view(c: OutgoingChange) -> (Seq<char>, Option<AddressView>, i32) {
    (
        c.guid@,
        match c.record {
            Some(a) => Some(a@),
            None => None,
        },
        c.sortindex,
    )
}

/// What a local row sends to the server.
pub open spec fn outgoing_for(l: LocalAddress) -> (Seq<char>, Option<AddressView>, i32) {
    if l.is_deleted {
        (l.key(), None, TOMBSTONE_SORTINDEX)
    } else {
        (l.key(), Some(l.address@), DEFAULT_SORTINDEX)
    }
}

/// What the local rows that are not yet synced send to the server, in table order.
pub open spec fn outgoing_of(rows: Seq<LocalAddress>) -> Seq<(Seq<char>, Option<AddressView>, i32)>
    decreases rows.len(),
{
    if rows.len() == 0 {
        Seq::empty()
    } else if rows.last().sync_status == SyncStatus::Synced {
        outgoing_of(rows.drop_last())
    } else {
        outgoing_of(rows.drop_last()).push(outgoing_for(rows.last()))
    }
}

/// The records of the live local rows (those whose hostname is `host`, where given).
pub open spec fn live_local(rows: Seq<LocalAddress>, host: Option<Seq<char>>) -> Seq<AddressView>
    decreases rows.len(),
{
    if rows.len() == 0 {
        Seq::empty()
    } else if !rows.last().is_deleted && (host is None || host == Some(
        rows.last().address.hostname@,
    )) {
        live_local(rows.drop_last(), host).push(rows.last().address@)
    } else {
        live_local(rows.drop_last(), host)
    }
}

/// The records of the mirror rows no local row overrides (with hostname `host`, where given).
pub open spec fn live_mirror(rows: Seq<MirrorAddress>, host: Option<Seq<char>>) -> Seq<AddressView>
    decreases rows.len(),
{
    if rows.len() == 0 {
        Seq::empty()
    } else if !rows.last().is_overridden && (host is None || host == Some(
        rows.last().address.hostname@,
    )) {
        live_mirror(rows.drop_last(), host).push(rows.last().address@)
    } else {
        live_mirror(rows.drop_last(), host)
    }
}

pub open spec fn address_views(v: Seq<Address>) -> Seq<AddressView> {
    v.map_values(|a: Address| a@)
}

/// A row that is not yet synced has its change among the outgoing ones.
pub proof fn lemma_outgoing_has(rows: Seq<LocalAddress>, g: Seq<char>)
    requires
        find(rows, g) is Some,
        find(rows, g).unwrap().sync_status != SyncStatus::Synced,
    ensures
        outgoing_of(rows).contains(outgoing_for(find(rows, g).unwrap())),
    decreases rows.len(),
{
    let o = outgoing_of(rows);
    if rows.last().key() == g {
        assert(o.last() == outgoing_for(rows.last()));
        assert(o[o.len() - 1] == outgoing_for(rows.last()));
    } else {
        lemma_outgoing_has(rows.drop_last(), g);
        let p = outgoing_of(rows.drop_last());
        let k = choose|k: int| 0 <= k < p.len() && p[k] == outgoing_for(find(rows, g).unwrap());
        if rows.last().sync_status != SyncStatus::Synced {
            assert(o[k] == p[k]);
        }
    }
}

/// The guid an imported record is stored under: its own where the server accepts it,
/// else the fresh one.
pub open spec fn import_guid(a: AddressView, fresh: Seq<char>) -> Seq<char> {
    if valid_sync_guid(a.guid) {
        a.guid
    } else {
        fresh
    }
}

/// The local row of `g` after importing `addrs` at `now` into an empty store, where the
/// record at index `i` may take the fresh guid `fresh[i]`: the first valid record stored
/// under `g` wins, and invalid records are skipped.
pub open spec fn imported(addrs: Seq<Address>, fresh: Seq<String>, now: i64, g: Seq<char>) -> Option<
    LocalView,
>
    decreases addrs.len(),
{
    if addrs.len() == 0 {
        None
    } else {
        let prev = imported(addrs.drop_last(), fresh, now, g);
        let n = addrs.len() - 1;
        let a = addrs[n]@;
        if prev is None && invalid_reason(a) is None && import_guid(a, fresh[n]@) == g {
            Some(new_local(AddressView { guid: g, ..a }, now))
        } else {
            prev
        }
    }
}

/// How many of `addrs` fail validation.
pub open spec fn invalid_count(addrs: Seq<Address>) -> nat
    decreases addrs.len(),
{
    if addrs.len() == 0 {
        0
    } else if invalid_reason(addrs.last()@) is Some {
        invalid_count(addrs.drop_last()) + 1
    } else {
        invalid_count(addrs.drop_last())
    }
}

fn clear_sensitive(a: &mut Address)
    ensures
        final(a)@ == cleared(old(a)@),
{
    a.hostname = String::new();
    a.username = String::new();
    a.password = String::new();
}

pub(crate) fn overlay_row(m: &MirrorAddress) -> (r: LocalAddress)
    ensures
        r@ == overlay_from_mirror(m@),
        r.key() == m.key(),
{
    LocalAddress {
        address: m.address.duplicate(),
        local_modified: 0,
        is_deleted: false,
        sync_status: SyncStatus::New,
    }
}

pub(crate) fn tombstone_row(l: &LocalAddress, now: i64) -> (r: LocalAddress)
    ensures
        r@ == tombstone_of(l@, now),
        r.key() == l.key(),
{
    let mut t = l.duplicate();
    clear_sensitive(&mut t.address);
    t.local_modified = now;
    t.is_deleted = true;
    t.sync_status = SyncStatus::Changed;
    t
}

pub(crate) fn mirror_tombstone_row(m: &MirrorAddress, now: i64) -> (r: LocalAddress)
    ensures
        r@ == tombstone_from_mirror(m@, now),
        r.key() == m.key(),
{
    LocalAddress {
        address: Address {
            guid: m.address.guid.clone(),
            hostname: String::new(),
            http_realm: None,
            form_submit_url: None,
            username_field: String::new(),
            password_field: String::new(),
            username: String::new(),
            password: String::new(),
            times_used: 0,
            time_created: m.address.time_created,
            time_last_used: 0,
            time_password_changed: now,
        },
        local_modified: now,
        is_deleted: true,
        sync_status: SyncStatus::Changed,
    }
}

} // verus!
