use vstd::prelude::*;

use crate::db::{add_outcome, AddressesDb, CollSyncIds};
use crate::error::ErrorKind;
use crate::record::{
    invalid_reason, opt_view, Address, AddressView, LocalAddress, MirrorAddress, SyncStatus,
};
use crate::table::{find, has_key, lemma_find_index, lemma_find_none, lemma_find_some, unique_keys, Keyed};
use crate::transitions::{
    added, deleted_local, lemma_outgoing_has, live_local, live_mirror, new_local, outgoing_for,
    outgoing_of, reset_local, synced_mirror, wiped_local, with_override, TOMBSTONE_SORTINDEX,
};

verus! {

/// A guid has no row.
pub open spec fn is_absent(db: AddressesDb, g: Seq<char>) -> bool {
    db.local_of(g) is None && db.mirror_of(g) is None
}

/// A guid has a local row and no mirror row.
pub open spec fn is_local_only(db: AddressesDb, g: Seq<char>) -> bool {
    db.local_of(g) is Some && db.mirror_of(g) is None
}

/// A guid has a mirror row and no local row.
pub open spec fn is_mirror_only(db: AddressesDb, g: Seq<char>) -> bool {
    db.local_of(g) is None && db.mirror_of(g) is Some
}

/// A guid has a local row over a mirror row that is marked overridden.
pub open spec fn is_overriding(db: AddressesDb, g: Seq<char>) -> bool {
    db.local_of(g) is Some && db.mirror_of(g) is Some && db.mirror_of(g).unwrap().is_overridden
}

/// In a well-formed store, which every public operation keeps, each guid is in exactly
/// one of four states: absent, local only, mirror only, or local overriding mirror.
pub proof fn lemma_one_state_per_guid(db: AddressesDb, g: Seq<char>)
    requires
        db.wf(),
    ensures
        is_absent(db, g) || is_local_only(db, g) || is_mirror_only(db, g) || is_overriding(db, g),
        !(is_absent(db, g) && is_local_only(db, g)),
        !(is_absent(db, g) && is_mirror_only(db, g)),
        !(is_absent(db, g) && is_overriding(db, g)),
        !(is_local_only(db, g) && is_mirror_only(db, g)),
        !(is_local_only(db, g) && is_overriding(db, g)),
        !(is_mirror_only(db, g) && is_overriding(db, g)),
{
    if db.local_of(g) is Some && db.mirror_of(g) is Some {
        assert(db.mirror_of(g).unwrap().is_overridden);
    }
}

/// `add` followed by a second `add` with the same explicit guid: the second is refused
/// with `DuplicateGuid` for that guid, and the store, with the first row, stays as the first
/// `add` left it.
pub proof fn lemma_add_twice_refused(
    db0: AddressesDb,
    db1: AddressesDb,
    db2: AddressesDb,
    a: AddressView,
    b: AddressView,
    fresh1: Seq<char>,
    fresh2: Seq<char>,
    now1: i64,
    now2: i64,
    r1: Result<Address, ErrorKind>,
    r2: Result<Address, ErrorKind>,
)
    requires
        db0.wf(),
        a.guid.len() > 0,
        b.guid == a.guid,
        invalid_reason(b) is None,
        add_outcome(db0, db1, a, fresh1, now1, r1),
        r1 is Ok,
        add_outcome(db1, db2, b, fresh2, now2, r2),
    ensures
        r2 matches Err(ErrorKind::DuplicateGuid(s)) && s@ == a.guid,
        db2 == db1,
        db2.lv(a.guid) == Some(new_local(added(a, a.guid, now1), now1)),
{
}

/// After `delete` of a record the server had, readers no longer see it, and exactly one of
/// the outgoing changes names its guid: its tombstone, with the tombstone sort index.
pub proof fn lemma_delete_sends_tombstone(
    before: AddressesDb,
    after: AddressesDb,
    g: Seq<char>,
    now: i64,
)
    requires
        before.wf(),
        after.wf(),
        before.mirror_of(g) is Some,
        after.lv(g) == deleted_local(before.lv(g), before.mv(g), now),
        after.mv(g) == with_override(before.mv(g)),
    ensures
        after.visible(g) is None,
        outgoing_of(after.local_rows()).contains((g, None::<AddressView>, TOMBSTONE_SORTINDEX)),
        forall|k: int|
            0 <= k < outgoing_of(after.local_rows()).len() && (#[trigger] outgoing_of(
                after.local_rows(),
            )[k]).0 == g ==> outgoing_of(after.local_rows())[k] == (
                g,
                None::<AddressView>,
                TOMBSTONE_SORTINDEX,
            ),
        forall|a: int, b: int|
            0 <= a < b < outgoing_of(after.local_rows()).len() ==> (#[trigger] outgoing_of(
                after.local_rows(),
            )[a]).0 != (#[trigger] outgoing_of(after.local_rows())[b]).0,
{
    lemma_find_some(after.local_rows(), g);
    lemma_outgoing_has(after.local_rows(), g);
    lemma_outgoing_entries(after.local_rows(), g);
    lemma_outgoing_distinct(after.local_rows());
}

/// Each outgoing change of a table with unique guids is what the row of its guid sends.
proof fn lemma_outgoing_entries(rows: Seq<LocalAddress>, g: Seq<char>)
    requires
        unique_keys(rows),
    ensures
        forall|k: int|
            0 <= k < outgoing_of(rows).len() && (#[trigger] outgoing_of(rows)[k]).0 == g ==> find(
                rows,
                g,
            ) is Some && outgoing_of(rows)[k] == outgoing_for(find(rows, g).unwrap()),
    decreases rows.len(),
{
    if rows.len() > 0 {
        let d = rows.drop_last();
        assert(unique_keys(d)) by {
            assert forall|a: int, b: int| 0 <= a < b < d.len() implies #[trigger] d[a].key()
                != #[trigger] d[b].key() by {
                assert(rows[a].key() != rows[b].key());
            }
        }
        lemma_outgoing_entries(d, g);
        let o = outgoing_of(rows);
        let p = outgoing_of(d);
        assert forall|k: int| 0 <= k < o.len() && (#[trigger] o[k]).0 == g implies find(rows, g)
            is Some && o[k] == outgoing_for(find(rows, g).unwrap()) by {
            if rows.last().sync_status != SyncStatus::Synced && k == p.len() {
                assert(o[k] == outgoing_for(rows.last()));
            } else {
                assert(o[k] == p[k]);
                if rows.last().key() == g {
                    lemma_find_some(d, g);
                    lemma_find_none(d, g);
                    let i = choose|i: int| 0 <= i < d.len() && #[trigger] d[i].key() == g;
                    assert(rows[i].key() != rows[rows.len() - 1].key());
                }
            }
        }
    }
}

/// The outgoing changes of a table with unique guids name distinct guids.
proof fn lemma_outgoing_distinct(rows: Seq<LocalAddress>)
    requires
        unique_keys(rows),
    ensures
        forall|a: int, b: int|
            0 <= a < b < outgoing_of(rows).len() ==> (#[trigger] outgoing_of(rows)[a]).0
                != (#[trigger] outgoing_of(rows)[b]).0,
    decreases rows.len(),
{
    if rows.len() > 0 {
        let d = rows.drop_last();
        assert(unique_keys(d)) by {
            assert forall|a: int, b: int| 0 <= a < b < d.len() implies #[trigger] d[a].key()
                != #[trigger] d[b].key() by {
                assert(rows[a].key() != rows[b].key());
            }
        }
        lemma_outgoing_distinct(d);
        let last = rows.last();
        assert(!has_key(d, last.key())) by {
            if has_key(d, last.key()) {
                let i = choose|i: int| 0 <= i < d.len() && #[trigger] d[i].key() == last.key();
                assert(rows[i].key() != rows[rows.len() - 1].key());
            }
        }
        lemma_find_none(d, last.key());
        lemma_outgoing_keys(d, last.key());
        let o = outgoing_of(rows);
        let p = outgoing_of(d);
        assert forall|a: int, b: int| 0 <= a < b < o.len() implies (#[trigger] o[a]).0
            != (#[trigger] o[b]).0 by {
            assert(o[a] == p[a]);
            if last.sync_status != SyncStatus::Synced && b == p.len() {
                assert(o[b] == outgoing_for(last));
            } else {
                assert(o[b] == p[b]);
            }
        }
    }
}

/// A guid whose local row is gone, as `sync_finished` leaves each guid it acknowledges,
/// has nothing among the outgoing changes.
pub proof fn lemma_acknowledged_not_outgoing(db: AddressesDb, g: Seq<char>)
    requires
        db.wf(),
        db.local_of(g) is None,
    ensures
        forall|k: int|
            0 <= k < outgoing_of(db.local_rows()).len() ==> (#[trigger] outgoing_of(
                db.local_rows(),
            )[k]).0 != g,
{
    lemma_outgoing_keys(db.local_rows(), g);
}

proof fn lemma_outgoing_keys(rows: Seq<LocalAddress>, g: Seq<char>)
    requires
        find(rows, g) is None,
    ensures
        forall|k: int| 0 <= k < outgoing_of(rows).len() ==> (#[trigger] outgoing_of(rows)[k]).0 != g,
    decreases rows.len(),
{
    if rows.len() > 0 {
        lemma_outgoing_keys(rows.drop_last(), g);
        let o = outgoing_of(rows);
        let p = outgoing_of(rows.drop_last());
        assert forall|k: int| 0 <= k < o.len() implies (#[trigger] o[k]).0 != g by {
            if rows.last().sync_status != SyncStatus::Synced && k == p.len() {
                assert(o[k] == outgoing_for(rows.last()));
            } else {
                assert(o[k] == p[k]);
            }
        }
    }
}

/// After `mark_as_synchronized` of a guid with a live local row at time `t`, no local row
/// remains, and its mirror row has server time `t` and is not overridden.
pub proof fn lemma_synchronized_row(
    before: AddressesDb,
    after: AddressesDb,
    g: Seq<char>,
    t: i64,
)
    requires
        before.lv(g) is Some,
        !before.lv(g).unwrap().is_deleted,
        after.local_of(g) is None,
        after.mv(g) == synced_mirror(before.lv(g), t),
    ensures
        after.local_of(g) is None,
        after.mirror_of(g) is Some,
        after.mirror_of(g).unwrap().server_modified == t,
        !after.mirror_of(g).unwrap().is_overridden,
{
}

/// After `wipe`, readers see no record, and every record that existed, unless it never
/// reached the server, has a tombstone among the outgoing changes.
pub proof fn lemma_wipe_leaves_tombstones(
    before: AddressesDb,
    after: AddressesDb,
    g: Seq<char>,
    now: i64,
)
    requires
        before.wf(),
        after.lv(g) == wiped_local(before.lv(g), before.mv(g), now),
        after.mv(g) == with_override(before.mv(g)),
    ensures
        after.visible(g) is None,
        before.exists_spec(g) && !(before.lv(g) is Some && before.lv(g).unwrap().sync_status
            == SyncStatus::New && before.mv(g) is None) ==> outgoing_of(after.local_rows()).contains(
            (g, None::<AddressView>, TOMBSTONE_SORTINDEX),
        ),
{
    lemma_find_some(after.local_rows(), g);
    if before.exists_spec(g) && !(before.lv(g) is Some && before.lv(g).unwrap().sync_status
        == SyncStatus::New && before.mv(g) is None) {
        if before.lv(g) is Some && before.mv(g) is Some {
            assert(before.local_of(g) is Some && before.mirror_of(g) is Some);
        }
        lemma_outgoing_has(after.local_rows(), g);
    }
}

/// After `wipe`, no record is readable, so `get_all` and `get_by_hostname` return nothing,
/// and every outgoing change is a tombstone.
pub proof fn lemma_wipe_hides_all(before: AddressesDb, after: AddressesDb, now: i64, host: Option<Seq<char>>)
    requires
        after.wf(),
        forall|g: Seq<char>|
            #![trigger after.lv(g)]
            #![trigger after.mv(g)]
            after.lv(g) == wiped_local(before.lv(g), before.mv(g), now) && after.mv(g)
                == with_override(before.mv(g)),
    ensures
        live_local(after.local_rows(), host).len() == 0,
        live_mirror(after.mirror_rows(), host).len() == 0,
        forall|k: int|
            0 <= k < outgoing_of(after.local_rows()).len() ==> (#[trigger] outgoing_of(
                after.local_rows(),
            )[k]).1 is None,
{
    let rows = after.local_rows();
    let mrows = after.mirror_rows();
    assert forall|i: int| 0 <= i < rows.len() implies (#[trigger] rows[i]).is_deleted by {
        lemma_find_index(rows, i);
        assert(after.lv(rows[i].key()) == Some(rows[i]@));
    }
    assert forall|i: int| 0 <= i < mrows.len() implies (#[trigger] mrows[i]).is_overridden by {
        lemma_find_index(mrows, i);
        assert(after.mv(mrows[i].key()) == Some(mrows[i]@));
    }
    lemma_live_local_empty(rows, host);
    lemma_live_mirror_empty(mrows, host);
    lemma_outgoing_tombstones(rows);
}

proof fn lemma_live_local_empty(rows: Seq<LocalAddress>, host: Option<Seq<char>>)
    requires
        forall|i: int| 0 <= i < rows.len() ==> (#[trigger] rows[i]).is_deleted,
    ensures
        live_local(rows, host).len() == 0,
    decreases rows.len(),
{
    if rows.len() > 0 {
        let d = rows.drop_last();
        assert forall|i: int| 0 <= i < d.len() implies (#[trigger] d[i]).is_deleted by {
            assert(d[i] == rows[i]);
        }
        lemma_live_local_empty(d, host);
    }
}

proof fn lemma_live_mirror_empty(rows: Seq<MirrorAddress>, host: Option<Seq<char>>)
    requires
        forall|i: int| 0 <= i < rows.len() ==> (#[trigger] rows[i]).is_overridden,
    ensures
        live_mirror(rows, host).len() == 0,
    decreases rows.len(),
{
    if rows.len() > 0 {
        let d = rows.drop_last();
        assert forall|i: int| 0 <= i < d.len() implies (#[trigger] d[i]).is_overridden by {
            assert(d[i] == rows[i]);
        }
        lemma_live_mirror_empty(d, host);
    }
}

proof fn lemma_outgoing_tombstones(rows: Seq<LocalAddress>)
    requires
        forall|i: int| 0 <= i < rows.len() ==> (#[trigger] rows[i]).is_deleted,
    ensures
        forall|k: int| 0 <= k < outgoing_of(rows).len() ==> (#[trigger] outgoing_of(rows)[k]).1 is None,
    decreases rows.len(),
{
    if rows.len() > 0 {
        let d = rows.drop_last();
        assert forall|i: int| 0 <= i < d.len() implies (#[trigger] d[i]).is_deleted by {
            assert(d[i] == rows[i]);
        }
        lemma_outgoing_tombstones(d);
        let o = outgoing_of(rows);
        let p = outgoing_of(d);
        assert forall|k: int| 0 <= k < o.len() implies (#[trigger] o[k]).1 is None by {
            if rows.last().sync_status != SyncStatus::Synced && k == p.len() {
                assert(o[k] == outgoing_for(rows.last()));
            } else {
                assert(o[k] == p[k]);
            }
        }
    }
}

/// After `reset` under `Connected(ids)`, the stored association is those ids, the mirror is
/// empty, and every local row is never-synced.
pub proof fn lemma_reset_connected(before: AddressesDb, after: AddressesDb, ids: CollSyncIds)
    requires
        forall|g: Seq<char>|
            #[trigger] after.lv(g) == reset_local(before.lv(g), before.mv(g)) && after.mirror_of(g)
                is None,
        opt_view(after.meta_spec().global_sync_id) == Some(ids.global@),
        opt_view(after.meta_spec().collection_sync_id) == Some(ids.coll@),
    ensures
        after.meta_spec().global_sync_id matches Some(x) && x@ == ids.global@,
        after.meta_spec().collection_sync_id matches Some(x) && x@ == ids.coll@,
        forall|g: Seq<char>|
            #[trigger] after.mirror_of(g) is None && (after.lv(g) is Some ==> after.lv(
                g,
            ).unwrap().sync_status == SyncStatus::New),
{
    assert forall|g: Seq<char>|
        #[trigger] after.mirror_of(g) is None && (after.lv(g) is Some ==> after.lv(
            g,
        ).unwrap().sync_status == SyncStatus::New) by {
        assert(after.lv(g) == reset_local(before.lv(g), before.mv(g)));
    }
}

} // verus!
