use vstd::prelude::*;

use std::sync::atomic::AtomicUsize;
use std::sync::Arc;

use crate::error::ErrorKind;
use crate::interrupt::{InterruptHandle, InterruptScope};
use crate::record::{
    clone_opt, invalid_reason, local_view, mirror_view, opt_eq, opt_view, status_at_least, Address,
    AddressView, LocalAddress, LocalView, MirrorAddress, MirrorView, SyncStatus,
};
use crate::table::{
    find, lemma_find_index, lemma_find_none, lemma_find_push, lemma_find_remove, lemma_find_some,
    lemma_find_update, lemma_push_unique, unique_keys, Keyed,
};
use crate::transitions::{
    added, address_views, bump_exec, change_view, deleted_local, first_dupe, first_dupe_for,
    imported, in_prefix, invalid_count, lemma_in_prefix_step, live_local, live_mirror, local_after_updates,
    mirror_after_inserts, mirror_after_updates, mirror_tombstone_row, new_local, outgoing_of,
    overlay_of, overlay_row, planned_local, planned_mirror, reset_local, seen_before,
    synced_mirror, tombstone_row, touched, updated, visible_of, wiped_local, with_override,
    OutgoingChange, OutgoingChangeset, DEFAULT_SORTINDEX, TOMBSTONE_SORTINDEX,
};
use crate::update_plan::UpdatePlan;
use crate::util::{find_text, is_valid_for_sync_server, url_host_port, ServerTimestamp};

verus! {

/// The key-value metadata of the store.
pub struct SyncMeta {
    pub last_sync: Option<i64>,
    pub global_state: Option<String>,
    pub global_sync_id: Option<String>,
    pub collection_sync_id: Option<String>,
}

/// The sync ids of the account and of the collection.
#[derive(Debug, Clone)]
pub struct CollSyncIds {
    pub global: String,
    pub coll: String,
}

/// How the store stands with the sync server.
#[derive(Debug, Clone)]
pub enum StoreSyncAssociation {
    Disconnected,
    Connected(CollSyncIds),
}

/// The record store: a local overlay table, a mirror table and the sync metadata.
pub struct AddressesDb {
    local: Vec<LocalAddress>,
    mirror: Vec<MirrorAddress>,
    meta: SyncMeta,
    interrupt_counter: Arc<AtomicUsize>,
}

/// Once a prefix of `rows` holds a duplicate, the whole of `rows` finds that one.
proof fn lemma_first_dupe_prefix(
    rows: Seq<LocalAddress>,
    a: AddressView,
    target: Option<Seq<char>>,
    n: int,
)
    requires
        0 <= n <= rows.len(),
        first_dupe_for(rows.subrange(0, n), a, target) is Some,
    ensures
        first_dupe_for(rows, a, target) == first_dupe_for(rows.subrange(0, n), a, target),
    decreases rows.len() - n,
{
    if n < rows.len() {
        assert(rows.subrange(0, n + 1).drop_last() =~= rows.subrange(0, n));
        lemma_first_dupe_prefix(rows, a, target, n + 1);
    } else {
        assert(rows.subrange(0, n) =~= rows);
    }
}

/// What `add` of the record `a` at `now`, with `fresh` standing in for an empty guid, does:
/// `before` becomes `after` and `r` is returned. An invalid record, or a guid that already
/// has a row, is refused and nothing changes; otherwise the record is stored as a new,
/// never-synced local row.
pub open spec fn add_outcome(
    before: AddressesDb,
    after: AddressesDb,
    a: AddressView,
    fresh: Seq<char>,
    now: i64,
    r: Result<Address, ErrorKind>,
) -> bool {
    let g = if a.guid.len() == 0 {
        fresh
    } else {
        a.guid
    };
    match invalid_reason(a) {
        Some(e) => r == Err::<Address, ErrorKind>(ErrorKind::InvalidRecord(e)) && after == before,
        None => if before.local_of(g) is Some || before.mirror_of(g) is Some {
            (r matches Err(ErrorKind::DuplicateGuid(s)) && s@ == g) && after == before
        } else {
            &&& r matches Ok(x) && x@ == added(a, g, now)
            &&& after.lv(g) == Some(new_local(added(a, g, now), now))
            &&& after.mirror_of(g) is None
            &&& after.same_except(&before, g)
        },
    }
}

/// Two stores with the same tables agree on every guid.
proof fn lemma_same_tables(a: &AddressesDb, b: &AddressesDb)
    requires
        a.local@ == b.local@,
        a.mirror@ == b.mirror@,
        b.wf(),
    ensures
        a.wf(),
        forall|g: Seq<char>|
            #![trigger a.lv(g)]
            #![trigger a.mv(g)]
            #![trigger a.local_of(g)]
            #![trigger a.mirror_of(g)]
            a.local_of(g) == b.local_of(g) && a.mirror_of(g) == b.mirror_of(g) && a.lv(g) == b.lv(g)
                && a.mv(g) == b.mv(g),
{
    assert forall|g: Seq<char>|
        #[trigger] a.local_of(g) is Some && a.mirror_of(g) is Some implies a.mirror_of(
            g,
        ).unwrap().is_overridden by {
        assert(b.local_of(g) == a.local_of(g));
        assert(b.mirror_of(g) == a.mirror_of(g));
    }
}

impl AddressesDb {
    pub closed spec fn local_rows(&self) -> Seq<LocalAddress> {
        self.local@
    }

    pub closed spec fn mirror_rows(&self) -> Seq<MirrorAddress> {
        self.mirror@
    }

    pub closed spec fn meta_spec(&self) -> &SyncMeta {
        &self.meta
    }

    /// The local row of guid `g`, if any.
    pub open spec fn local_of(&self, g: Seq<char>) -> Option<LocalAddress> {
        find(self.local_rows(), g)
    }

    /// The mirror row of guid `g`, if any.
    pub open spec fn mirror_of(&self, g: Seq<char>) -> Option<MirrorAddress> {
        find(self.mirror_rows(), g)
    }

    /// The value of the local row of guid `g`, if any.
    pub open spec fn lv(&self, g: Seq<char>) -> Option<LocalView> {
        local_view(self.local_of(g))
    }

    /// The value of the mirror row of guid `g`, if any.
    pub open spec fn mv(&self, g: Seq<char>) -> Option<MirrorView> {
        mirror_view(self.mirror_of(g))
    }

    /// The record that readers see for guid `g`.
    pub open spec fn visible(&self, g: Seq<char>) -> Option<AddressView> {
        visible_of(self.lv(g), self.mv(g))
    }

    /// A guid exists iff it has a live local row or a mirror row that is not overridden.
    pub open spec fn exists_spec(&self, g: Seq<char>) -> bool {
        (self.local_of(g) is Some && !self.local_of(g).unwrap().is_deleted) || (self.mirror_of(
            g,
        ) is Some && !self.mirror_of(g).unwrap().is_overridden)
    }

    /// Each table holds at most one row per guid, and a mirror row under a local row is
    /// marked overridden.
    pub open spec fn wf(&self) -> bool {
        &&& unique_keys(self.local_rows())
        &&& unique_keys(self.mirror_rows())
        &&& forall|g: Seq<char>|
            #[trigger] self.local_of(g) is Some && self.mirror_of(g) is Some
                ==> self.mirror_of(g).unwrap().is_overridden
    }

    /// `self` and `other` agree on every guid but `g`, and on the metadata.
    pub open spec fn same_except(&self, other: &AddressesDb, g: Seq<char>) -> bool {
        &&& forall|h: Seq<char>|
            h != g ==> #[trigger] self.local_of(h) == other.local_of(h) && self.mirror_of(h)
                == other.mirror_of(h)
        &&& self.meta_spec() == other.meta_spec()
    }

    /// `self` holds the same rows and metadata as `other`.
    pub open spec fn same_state(&self, other: &AddressesDb) -> bool {
        &&& self.local_rows() == other.local_rows()
        &&& self.mirror_rows() == other.mirror_rows()
        &&& self.meta_spec() == other.meta_spec()
    }

    /// A handle that interrupts the operation running on this store.
    pub fn new_interrupt_handle(&self) -> InterruptHandle {
        InterruptHandle::new(Arc::clone(&self.interrupt_counter))
    }

    /// The interrupt scope of an operation that begins now.
    pub fn begin_interrupt_scope(&self) -> InterruptScope {
        InterruptScope::new(Arc::clone(&self.interrupt_counter))
    }

    pub(crate) fn save_tables(&self) -> (r: (Vec<LocalAddress>, Vec<MirrorAddress>))
        ensures
            r.0@ == self.local_rows(),
            r.1@ == self.mirror_rows(),
    {
        let mut l: Vec<LocalAddress> = Vec::new();
        let mut i: usize = 0;
        while i < self.local.len()
            invariant
                0 <= i <= self.local@.len(),
                l@ == self.local@.subrange(0, i as int),
            decreases self.local@.len() - i,
        {
            l.push(self.local[i].duplicate());
            assert(l@ =~= self.local@.subrange(0, i + 1));
            i = i + 1;
        }
        let mut m: Vec<MirrorAddress> = Vec::new();
        let mut k: usize = 0;
        while k < self.mirror.len()
            invariant
                0 <= k <= self.mirror@.len(),
                l@ == self.local@,
                m@ == self.mirror@.subrange(0, k as int),
            decreases self.mirror@.len() - k,
        {
            m.push(self.mirror[k].duplicate());
            assert(m@ =~= self.mirror@.subrange(0, k + 1));
            k = k + 1;
        }
        assert(l@ =~= self.local@);
        assert(m@ =~= self.mirror@);
        (l, m)
    }

    /// Puts back tables saved earlier.
    fn restore_tables(&mut self, saved: (Vec<LocalAddress>, Vec<MirrorAddress>))
        ensures
            final(self).local@ == saved.0@,
            final(self).mirror@ == saved.1@,
            final(self).meta == old(self).meta,
    {
        self.local = saved.0;
        self.mirror = saved.1;
    }

    /// Puts back tables saved from `before`, which was well formed.
    pub(crate) fn roll_back(&mut self, saved: (Vec<LocalAddress>, Vec<MirrorAddress>), before: Ghost<AddressesDb>)
        requires
            saved.0@ == before@.local_rows(),
            saved.1@ == before@.mirror_rows(),
            old(self).meta_spec() == before@.meta_spec(),
            before@.wf(),
        ensures
            final(self).wf(),
            final(self).same_state(&before@),
    {
        self.restore_tables(saved);
        proof {
            lemma_same_tables(self, &before@);
        }
    }

    /// An empty store.
    pub fn new() -> (r: AddressesDb)
        ensures
            r.wf(),
            forall|g: Seq<char>| #[trigger] r.local_of(g) is None && r.mirror_of(g) is None,
            r.local_rows().len() == 0,
            r.mirror_rows().len() == 0,
            r.meta_spec().last_sync is None,
            r.meta_spec().global_state is None,
            r.meta_spec().global_sync_id is None,
            r.meta_spec().collection_sync_id is None,
    {
        let r = AddressesDb {
            local: Vec::new(),
            mirror: Vec::new(),
            meta: SyncMeta {
                last_sync: None,
                global_state: None,
                global_sync_id: None,
                collection_sync_id: None,
            },
            interrupt_counter: Arc::new(AtomicUsize::new(0)),
        };
        assert forall|g: Seq<char>| #[trigger] r.local_of(g) is None && r.mirror_of(g) is None by {
            lemma_find_none(r.local@, g);
            lemma_find_none(r.mirror@, g);
        }
        r
    }

    fn local_index(&self, g: &String) -> (r: Option<usize>)
        requires
            unique_keys(self.local@),
        ensures
            match r {
                Some(i) => i < self.local@.len() && self.local@[i as int].key() == g@
                    && self.local_of(g@) == Some(self.local@[i as int]),
                None => self.local_of(g@) is None,
            },
    {
        let mut i: usize = 0;
        while i < self.local.len()
            invariant
                0 <= i <= self.local@.len(),
                unique_keys(self.local@),
                forall|j: int| 0 <= j < i ==> #[trigger] self.local@[j].key() != g@,
            decreases self.local@.len() - i,
        {
            if self.local[i].address.guid.eq(g) {
                proof {
                    lemma_find_index(self.local@, i as int);
                }
                return Some(i);
            }
            i = i + 1;
        }
        proof {
            lemma_find_none(self.local@, g@);
        }
        None
    }

    fn mirror_index(&self, g: &String) -> (r: Option<usize>)
        requires
            unique_keys(self.mirror@),
        ensures
            match r {
                Some(i) => i < self.mirror@.len() && self.mirror@[i as int].key() == g@
                    && self.mirror_of(g@) == Some(self.mirror@[i as int]),
                None => self.mirror_of(g@) is None,
            },
    {
        let mut i: usize = 0;
        while i < self.mirror.len()
            invariant
                0 <= i <= self.mirror@.len(),
                unique_keys(self.mirror@),
                forall|j: int| 0 <= j < i ==> #[trigger] self.mirror@[j].key() != g@,
            decreases self.mirror@.len() - i,
        {
            if self.mirror[i].address.guid.eq(g) {
                proof {
                    lemma_find_index(self.mirror@, i as int);
                }
                return Some(i);
            }
            i = i + 1;
        }
        proof {
            lemma_find_none(self.mirror@, g@);
        }
        None
    }

    /// Writes `row` as the local row of its guid.
    fn put_local(&mut self, row: LocalAddress)
        requires
            unique_keys(old(self).local@),
        ensures
            unique_keys(final(self).local@),
            final(self).mirror@ == old(self).mirror@,
            final(self).meta == old(self).meta,
            forall|h: Seq<char>|
                #[trigger] final(self).local_of(h) == if h == row.key() {
                    Some(row)
                } else {
                    old(self).local_of(h)
                },
    {
        let g = row.address.guid.clone();
        match self.local_index(&g) {
            Some(i) => {
                proof {
                    assert forall|h: Seq<char>|
                        #[trigger] find(self.local@.update(i as int, row), h) == if h == row.key() {
                            Some(row)
                        } else {
                            find(self.local@, h)
                        } by {
                        lemma_find_update(self.local@, i as int, row, h);
                    }
                    lemma_find_update(self.local@, i as int, row, g@);
                }
                self.local.set(i, row);
            },
            None => {
                proof {
                    assert forall|h: Seq<char>|
                        #[trigger] find(self.local@.push(row), h) == if h == row.key() {
                            Some(row)
                        } else {
                            find(self.local@, h)
                        } by {
                        lemma_find_push(self.local@, row, h);
                    }
                    lemma_push_unique(self.local@, row);
                }
                self.local.push(row);
            },
        }
    }

    /// Writes `row` as the mirror row of its guid.
    fn put_mirror(&mut self, row: MirrorAddress)
        requires
            unique_keys(old(self).mirror@),
        ensures
            unique_keys(final(self).mirror@),
            final(self).local@ == old(self).local@,
            final(self).meta == old(self).meta,
            forall|h: Seq<char>|
                #[trigger] final(self).mirror_of(h) == if h == row.key() {
                    Some(row)
                } else {
                    old(self).mirror_of(h)
                },
    {
        let g = row.address.guid.clone();
        match self.mirror_index(&g) {
            Some(i) => {
                proof {
                    assert forall|h: Seq<char>|
                        #[trigger] find(self.mirror@.update(i as int, row), h) == if h
                            == row.key() {
                            Some(row)
                        } else {
                            find(self.mirror@, h)
                        } by {
                        lemma_find_update(self.mirror@, i as int, row, h);
                    }
                    lemma_find_update(self.mirror@, i as int, row, g@);
                }
                self.mirror.set(i, row);
            },
            None => {
                proof {
                    assert forall|h: Seq<char>|
                        #[trigger] find(self.mirror@.push(row), h) == if h == row.key() {
                            Some(row)
                        } else {
                            find(self.mirror@, h)
                        } by {
                        lemma_find_push(self.mirror@, row, h);
                    }
                    lemma_push_unique(self.mirror@, row);
                }
                self.mirror.push(row);
            },
        }
    }

    /// Removes the local row of guid `g`, if any.
    fn drop_local(&mut self, g: &String)
        requires
            unique_keys(old(self).local@),
        ensures
            unique_keys(final(self).local@),
            final(self).mirror@ == old(self).mirror@,
            final(self).meta == old(self).meta,
            forall|h: Seq<char>|
                #[trigger] final(self).local_of(h) == if h == g@ {
                    None
                } else {
                    old(self).local_of(h)
                },
    {
        match self.local_index(g) {
            Some(i) => {
                proof {
                    assert forall|h: Seq<char>|
                        #[trigger] find(self.local@.remove(i as int), h) == if h == g@ {
                            None
                        } else {
                            find(self.local@, h)
                        } by {
                        lemma_find_remove(self.local@, i as int, h);
                    }
                    lemma_find_remove(self.local@, i as int, g@);
                }
                self.local.remove(i);
            },
            None => {},
        }
    }

    /// Removes the mirror row of guid `g`, if any.
    fn drop_mirror(&mut self, g: &String)
        requires
            unique_keys(old(self).mirror@),
        ensures
            unique_keys(final(self).mirror@),
            final(self).local@ == old(self).local@,
            final(self).meta == old(self).meta,
            forall|h: Seq<char>|
                #[trigger] final(self).mirror_of(h) == if h == g@ {
                    None
                } else {
                    old(self).mirror_of(h)
                },
    {
        match self.mirror_index(g) {
            Some(i) => {
                proof {
                    assert forall|h: Seq<char>|
                        #[trigger] find(self.mirror@.remove(i as int), h) == if h == g@ {
                            None
                        } else {
                            find(self.mirror@, h)
                        } by {
                        lemma_find_remove(self.mirror@, i as int, h);
                    }
                    lemma_find_remove(self.mirror@, i as int, g@);
                }
                self.mirror.remove(i);
            },
            None => {},
        }
    }
    /// Marks the mirror row of guid `g` as overridden, if there is one.
    fn mark_mirror_overridden(&mut self, g: &String)
        requires
            unique_keys(old(self).mirror@),
        ensures
            unique_keys(final(self).mirror@),
            final(self).local@ == old(self).local@,
            final(self).meta == old(self).meta,
            forall|h: Seq<char>|
                h != g@ ==> #[trigger] final(self).mirror_of(h) == old(self).mirror_of(h),
            final(self).mv(g@) == with_override(old(self).mv(g@)),
            final(self).mirror_of(g@) is Some ==> final(self).mirror_of(g@).unwrap().is_overridden,
    {
        match self.mirror_index(g) {
            Some(i) => {
                let mut m = self.mirror[i].duplicate();
                m.is_overridden = true;
                proof {
                    lemma_find_some(self.mirror@, g@);
                }
                self.put_mirror(m);
            },
            None => {},
        }
    }

    /// Whether a record with guid `id` exists.
    pub fn record_exists(&self, id: &str) -> (r: bool)
        requires
            self.wf(),
        ensures
            r == self.exists_spec(id@),
    {
        let g = String::from_str(id);
        match self.local_index(&g) {
            Some(i) => if !self.local[i].is_deleted {
                return true;
            },
            None => {},
        }
        match self.mirror_index(&g) {
            Some(j) => !self.mirror[j].is_overridden,
            None => false,
        }
    }

    /// The record with guid `id`, as readers see it.
    pub fn get_by_id(&self, id: &str) -> (r: Option<Address>)
        requires
            self.wf(),
        ensures
            match r {
                Some(a) => self.visible(id@) == Some(a@),
                None => self.visible(id@) is None,
            },
    {
        let g = String::from_str(id);
        match self.local_index(&g) {
            Some(i) => {
                if !self.local[i].is_deleted {
                    return Some(self.local[i].address.duplicate());
                }
                return None;
            },
            None => {},
        }
        match self.mirror_index(&g) {
            Some(j) => if !self.mirror[j].is_overridden {
                Some(self.mirror[j].address.duplicate())
            } else {
                None
            },
            None => None,
        }
    }

    /// The local row of guid `g`, copied from the mirror where there is none.
    fn overlay(&self, g: &String) -> (r: Option<LocalAddress>)
        requires
            self.wf(),
        ensures
            local_view(r) == overlay_of(self.lv(g@), self.mv(g@)),
            r matches Some(x) ==> x.key() == g@,
    {
        match self.local_index(g) {
            Some(i) => Some(self.local[i].duplicate()),
            None => match self.mirror_index(g) {
                Some(j) => {
                    proof {
                        lemma_find_some(self.mirror@, g@);
                    }
                    Some(overlay_row(&self.mirror[j]))
                },
                None => None,
            },
        }
    }

    /// Writes `row` as the local row of its guid and marks that guid's mirror row overridden.
    fn put_overlay(&mut self, row: LocalAddress)
        requires
            old(self).wf(),
        ensures
            final(self).wf(),
            final(self).same_except(old(self), row.key()),
            final(self).local_of(row.key()) == Some(row),
            final(self).mv(row.key()) == with_override(old(self).mv(row.key())),
    {
        let g = row.address.guid.clone();
        let ghost s0 = *self;
        self.mark_mirror_overridden(&g);
        let ghost s1 = *self;
        self.put_local(row);
        assert forall|h: Seq<char>| #[trigger] self.local_of(h) == if h == g@ {
            Some(row)
        } else {
            s0.local_of(h)
        } && self.mirror_of(h) == s1.mirror_of(h) by {
            assert(s1.local_of(h) == s0.local_of(h));
        }
        assert forall|h: Seq<char>|
            #[trigger] self.local_of(h) is Some && self.mirror_of(h) is Some implies self.mirror_of(
                h,
            ).unwrap().is_overridden by {
            assert(s1.mirror_of(h) == self.mirror_of(h));
            if h != g@ {
                assert(s0.local_of(h) is Some);
                assert(s0.mirror_of(h) == s1.mirror_of(h));
            }
        }
        assert forall|h: Seq<char>| h != g@ implies #[trigger] self.local_of(h) == s0.local_of(h)
            && self.mirror_of(h) == s0.mirror_of(h) by {
            assert(s1.mirror_of(h) == s0.mirror_of(h));
        }
    }

    /// Removes the local row of guid `g` and marks its mirror row overridden.
    fn drop_overlay(&mut self, g: &String)
        requires
            old(self).wf(),
        ensures
            final(self).wf(),
            final(self).same_except(old(self), g@),
            final(self).local_of(g@) is None,
            final(self).mv(g@) == with_override(old(self).mv(g@)),
    {
        let ghost s0 = *self;
        self.drop_local(g);
        let ghost s1 = *self;
        self.mark_mirror_overridden(g);
        assert forall|h: Seq<char>| #[trigger] self.local_of(h) == s1.local_of(h) by {}
        assert forall|h: Seq<char>|
            #[trigger] self.local_of(h) is Some && self.mirror_of(h) is Some implies self.mirror_of(
                h,
            ).unwrap().is_overridden by {
            if h != g@ {
                assert(s1.local_of(h) == s0.local_of(h));
                assert(s0.mirror_of(h) == s1.mirror_of(h));
            }
        }
        assert forall|h: Seq<char>| h != g@ implies #[trigger] self.local_of(h) == s0.local_of(h)
            && self.mirror_of(h) == s0.mirror_of(h) by {
            assert(s1.mirror_of(h) == s0.mirror_of(h));
        }
    }

    /// Records a use of the record `id` at `now`: its use count and last-use time go up.
    /// A record that only the mirror holds gets a local copy first. A record that does not
    /// exist (no live local row and no mirror row that is not overridden) is refused.
    pub fn touch(&mut self, id: &str, now: i64) -> (r: Result<(), ErrorKind>)
        requires
            old(self).wf(),
        ensures
            final(self).wf(),
            !old(self).exists_spec(id@) ==> (r matches Err(ErrorKind::NoSuchRecord(s)) && s@
                == id@) && *final(self) == *old(self),
            old(self).exists_spec(id@) ==> {
                &&& r is Ok
                &&& overlay_of(old(self).lv(id@), old(self).mv(id@)) is Some
                &&& final(self).lv(id@) == Some(
                    touched(overlay_of(old(self).lv(id@), old(self).mv(id@)).unwrap(), now),
                )
                &&& final(self).mv(id@) == with_override(old(self).mv(id@))
                &&& final(self).same_except(old(self), id@)
            },
    {
        if !self.record_exists(id) {
            return Err(ErrorKind::NoSuchRecord(String::from_str(id)));
        }
        let g = String::from_str(id);
        proof {
            if self.local_of(g@) is Some && self.mirror_of(g@) is Some {
                assert(self.mirror_of(g@).unwrap().is_overridden);
            }
        }
        let mut l = match self.overlay(&g) {
            Some(l) => l,
            None => return Err(ErrorKind::NoSuchRecord(g)),
        };
        l.address.time_last_used = now;
        l.address.times_used = bump_exec(l.address.times_used);
        l.local_modified = now;
        self.put_overlay(l);
        Ok(())
    }

    /// Stores a new record, never synced. An empty guid is replaced by `fresh_guid`.
    pub fn add(&mut self, address: Address, now: i64, fresh_guid: &str) -> (r: Result<
        Address,
        ErrorKind,
    >)
        requires
            old(self).wf(),
        ensures
            final(self).wf(),
            add_outcome(*old(self), *final(self), address@, fresh_guid@, now, r),
    {
        if let Err(e) = address.check_valid() {
            return Err(ErrorKind::InvalidRecord(e));
        }
        let mut address = address;
        if address.guid.as_str().unicode_len() == 0 {
            address.guid = String::from_str(fresh_guid);
        }
        let taken = self.local_index(&address.guid).is_some() || self.mirror_index(
            &address.guid,
        ).is_some();
        if taken {
            return Err(ErrorKind::DuplicateGuid(address.guid));
        }
        address.time_created = now;
        address.time_password_changed = now;
        address.time_last_used = now;
        address.times_used = 1;
        let row = LocalAddress {
            address: address.duplicate(),
            local_modified: now,
            is_deleted: false,
            sync_status: SyncStatus::New,
        };
        let ghost g = row.key();
        self.put_local(row);
        assert forall|h: Seq<char>|
            #[trigger] self.local_of(h) is Some && self.mirror_of(h) is Some implies self.mirror_of(
                h,
            ).unwrap().is_overridden by {
            if h != g {
                assert(old(self).local_of(h) is Some);
            }
        }
        Ok(address)
    }

    /// Writes the fields of `address` over the record with its guid, counting a use at
    /// `now`; the password-changed time moves only when the password differs.
    pub fn update(&mut self, address: Address, now: i64) -> (r: Result<(), ErrorKind>)
        requires
            old(self).wf(),
        ensures
            final(self).wf(),
            ({
                let g = address.guid@;
                match invalid_reason(address@) {
                    Some(e) => r == Err::<(), ErrorKind>(ErrorKind::InvalidRecord(e))
                        && *final(self) == *old(self),
                    None => match overlay_of(old(self).lv(g), old(self).mv(g)) {
                        None => r matches Err(ErrorKind::NoSuchRecord(s)) && s@ == g
                            && *final(self) == *old(self),
                        Some(l) => {
                            &&& r is Ok
                            &&& final(self).lv(g) == Some(updated(l, address@, now))
                            &&& final(self).mv(g) == with_override(old(self).mv(g))
                            &&& final(self).same_except(old(self), g)
                        },
                    },
                }
            }),
    {
        if let Err(e) = address.check_valid() {
            return Err(ErrorKind::InvalidRecord(e));
        }
        let l = match self.overlay(&address.guid) {
            Some(l) => l,
            None => return Err(ErrorKind::NoSuchRecord(address.guid)),
        };
        let password_changed = !l.address.password.eq(&address.password);
        let row = LocalAddress {
            address: Address {
                guid: l.address.guid,
                hostname: address.hostname,
                http_realm: address.http_realm,
                form_submit_url: address.form_submit_url,
                username_field: address.username_field,
                password_field: address.password_field,
                username: address.username,
                password: address.password,
                times_used: bump_exec(l.address.times_used),
                time_created: l.address.time_created,
                time_last_used: now,
                time_password_changed: if password_changed {
                    now
                } else {
                    l.address.time_password_changed
                },
            },
            local_modified: now,
            is_deleted: l.is_deleted,
            sync_status: status_at_least(l.sync_status, SyncStatus::Changed),
        };
        self.put_overlay(row);
        Ok(())
    }

    /// Deletes the record `id` at `now` and returns whether it existed. A never-synced
    /// local row is removed; otherwise a tombstone stays until the server has it.
    pub fn delete(&mut self, id: &str, now: i64) -> (r: bool)
        requires
            old(self).wf(),
        ensures
            final(self).wf(),
            r == old(self).exists_spec(id@),
            final(self).lv(id@) == deleted_local(old(self).lv(id@), old(self).mv(id@), now),
            final(self).mv(id@) == with_override(old(self).mv(id@)),
            final(self).same_except(old(self), id@),
    {
        let existed = self.record_exists(id);
        let g = String::from_str(id);
        let l = match self.local_index(&g) {
            Some(i) => Some(self.local[i].duplicate()),
            None => None,
        };
        let m = match self.mirror_index(&g) {
            Some(j) => {
                proof {
                    lemma_find_some(self.mirror@, g@);
                }
                Some(self.mirror[j].duplicate())
            },
            None => None,
        };
        proof {
            lemma_find_some(self.local@, g@);
        }
        let next = match l {
            Some(x) => if x.sync_status == SyncStatus::New {
                match &m {
                    Some(y) => Some(mirror_tombstone_row(y, now)),
                    None => None,
                }
            } else {
                Some(tombstone_row(&x, now))
            },
            None => match &m {
                Some(y) => Some(mirror_tombstone_row(y, now)),
                None => None,
            },
        };
        match next {
            Some(t) => self.put_overlay(t),
            None => self.drop_overlay(&g),
        }
        existed
    }
    /// Sets both rows of guid `g`.
    fn set_guid(&mut self, g: &String, l: Option<LocalAddress>, m: Option<MirrorAddress>)
        requires
            old(self).wf(),
            l matches Some(x) ==> x.key() == g@,
            m matches Some(y) ==> y.key() == g@,
            l is Some && m is Some ==> m.unwrap().is_overridden,
        ensures
            final(self).wf(),
            final(self).same_except(old(self), g@),
            final(self).local_of(g@) == l,
            final(self).mirror_of(g@) == m,
    {
        let ghost s0 = *self;
        match l {
            Some(x) => self.put_local(x),
            None => self.drop_local(g),
        }
        let ghost s1 = *self;
        match m {
            Some(y) => self.put_mirror(y),
            None => self.drop_mirror(g),
        }
        assert forall|h: Seq<char>| #[trigger] self.local_of(h) == s1.local_of(h) by {}
        assert forall|h: Seq<char>| #[trigger] s1.mirror_of(h) == s0.mirror_of(h) by {}
        assert forall|h: Seq<char>|
            #[trigger] self.local_of(h) is Some && self.mirror_of(h) is Some implies self.mirror_of(
                h,
            ).unwrap().is_overridden by {
            if h != g@ {
                assert(s1.local_of(h) == s0.local_of(h));
                assert(s0.local_of(h) is Some);
            }
        }
    }

    /// Every guid that has a row, local guids first.
    fn all_keys(&self) -> (r: Vec<String>)
        ensures
            r@.len() == self.local@.len() + self.mirror@.len(),
            forall|g: Seq<char>|
                (#[trigger] self.local_of(g) is Some || self.mirror_of(g) is Some) ==> in_prefix(
                    r@,
                    r@.len() as int,
                    g,
                ),
    {
        let mut r: Vec<String> = Vec::new();
        let mut i: usize = 0;
        while i < self.local.len()
            invariant
                0 <= i <= self.local@.len(),
                r@.len() == i,
                forall|j: int| 0 <= j < i ==> #[trigger] r@[j]@ == self.local@[j].key(),
            decreases self.local@.len() - i,
        {
            r.push(self.local[i].address.guid.clone());
            i = i + 1;
        }
        let mut k: usize = 0;
        while k < self.mirror.len()
            invariant
                0 <= k <= self.mirror@.len(),
                r@.len() == self.local@.len() + k,
                forall|j: int| 0 <= j < self.local@.len() ==> #[trigger] r@[j]@ == self.local@[j].key(),
                forall|j: int| 0 <= j < k ==> #[trigger] r@[self.local@.len() + j]@ == self.mirror@[j].key(),
            decreases self.mirror@.len() - k,
        {
            r.push(self.mirror[k].address.guid.clone());
            k = k + 1;
        }
        assert forall|g: Seq<char>|
            (#[trigger] self.local_of(g) is Some || self.mirror_of(g) is Some) implies in_prefix(
                r@,
                r@.len() as int,
                g,
            ) by {
            lemma_find_none(self.local@, g);
            lemma_find_none(self.mirror@, g);
            if self.local_of(g) is Some {
                let j = choose|j: int| 0 <= j < self.local@.len() && #[trigger] self.local@[j].key() == g;
                assert(r@[j]@ == g);
            } else {
                let j = choose|j: int| 0 <= j < self.mirror@.len() && #[trigger] self.mirror@[j].key() == g;
                assert(r@[self.local@.len() + j]@ == g);
            }
        }
        r
    }

    fn wipe_one(&mut self, g: &String, now: i64)
        requires
            old(self).wf(),
        ensures
            final(self).wf(),
            final(self).same_except(old(self), g@),
            final(self).lv(g@) == wiped_local(old(self).lv(g@), old(self).mv(g@), now),
            final(self).mv(g@) == with_override(old(self).mv(g@)),
    {
        let l = match self.local_index(g) {
            Some(i) => Some(self.local[i].duplicate()),
            None => None,
        };
        let m = match self.mirror_index(g) {
            Some(j) => Some(self.mirror[j].duplicate()),
            None => None,
        };
        proof {
            lemma_find_some(self.local@, g@);
            lemma_find_some(self.mirror@, g@);
        }
        let next = match l {
            Some(x) => if x.sync_status == SyncStatus::New {
                match &m {
                    Some(y) => Some(mirror_tombstone_row(y, now)),
                    None => None,
                }
            } else {
                Some(tombstone_row(&x, now))
            },
            None => match &m {
                Some(y) => Some(mirror_tombstone_row(y, now)),
                None => None,
            },
        };
        match next {
            Some(t) => self.put_overlay(t),
            None => self.drop_overlay(g),
        }
    }

    /// Deletes every record at `now`, so that the deletion reaches the server: never-synced
    /// rows go, every other record is left as a tombstone, and every mirror row is
    /// overridden.
    /// An interrupt leaves the store as it was and returns `Interrupted`.
    pub fn wipe(&mut self, scope: &InterruptScope, now: i64) -> (r: Result<(), ErrorKind>)
        requires
            old(self).wf(),
        ensures
            final(self).wf(),
            r is Ok || r == Err::<(), ErrorKind>(ErrorKind::Interrupted),
            old(self).local_rows().len() == 0 && old(self).mirror_rows().len() == 0 ==> r is Ok,
            r is Err ==> final(self).same_state(old(self)),
            r is Ok ==> forall|g: Seq<char>|
                #[trigger] final(self).lv(g) == wiped_local(old(self).lv(g), old(self).mv(g), now)
                    && final(self).mv(g) == with_override(old(self).mv(g)),
            final(self).meta_spec() == old(self).meta_spec(),
    {
        let keys = self.all_keys();
        let ghost s0 = *self;
        let saved = self.save_tables();
        let mut i: usize = 0;
        while i < keys.len()
            invariant
                0 <= i <= keys@.len(),
                keys@.len() == s0.local@.len() + s0.mirror@.len(),
                saved.0@ == s0.local@,
                saved.1@ == s0.mirror@,
                s0 == *old(self),
                s0.wf(),
                self.wf(),
                self.meta_spec() == s0.meta_spec(),
                forall|g: Seq<char>|
                    #![trigger self.lv(g)]
                    #![trigger self.mv(g)]
                    if in_prefix(keys@, i as int, g) {
                        self.lv(g) == wiped_local(s0.lv(g), s0.mv(g), now) && self.mv(g)
                            == with_override(s0.mv(g))
                    } else {
                        self.local_of(g) == s0.local_of(g) && self.mirror_of(g) == s0.mirror_of(g)
                    },
            decreases keys@.len() - i,
        {
            if scope.was_interrupted() {
                self.restore_tables(saved);
                proof {
                    lemma_same_tables(self, &s0);
                }
                return Err(ErrorKind::Interrupted);
            }
            let ghost s1 = *self;
            if !seen_before(&keys, i) {
                self.wipe_one(&keys[i], now);
            }
            proof {
                assert forall|g: Seq<char>|
                    #![trigger self.lv(g)]
                    #![trigger self.mv(g)]
                    if in_prefix(keys@, i + 1, g) {
                        self.lv(g) == wiped_local(s0.lv(g), s0.mv(g), now) && self.mv(g)
                            == with_override(s0.mv(g))
                    } else {
                        self.local_of(g) == s0.local_of(g) && self.mirror_of(g) == s0.mirror_of(g)
                    } by {
                    lemma_in_prefix_step(keys@, i as int, g);
                    if g != keys@[i as int]@ {
                        assert(s1.lv(g) == self.lv(g));
                    }
                }
            }
            i = i + 1;
        }
        assert forall|g: Seq<char>|
            #[trigger] self.lv(g) == wiped_local(s0.lv(g), s0.mv(g), now) && self.mv(g)
                == with_override(s0.mv(g)) by {
            if !in_prefix(keys@, keys@.len() as int, g) {
                assert(s0.local_of(g) is None && s0.mirror_of(g) is None);
            }
        }
        Ok(())
    }

    fn reset_one(&mut self, g: &String)
        requires
            old(self).wf(),
        ensures
            final(self).wf(),
            final(self).same_except(old(self), g@),
            final(self).lv(g@) == reset_local(old(self).lv(g@), old(self).mv(g@)),
            final(self).mirror_of(g@) is None,
    {
        let next = match self.local_index(g) {
            Some(i) => {
                let mut x = self.local[i].duplicate();
                x.sync_status = SyncStatus::New;
                Some(x)
            },
            None => match self.mirror_index(g) {
                Some(j) => Some(overlay_row(&self.mirror[j])),
                None => None,
            },
        };
        proof {
            lemma_find_some(self.local@, g@);
            lemma_find_some(self.mirror@, g@);
        }
        self.set_guid(g, next, None);
    }

    /// Forgets what the server holds, so that the next sync is a full one: every mirror row
    /// becomes a never-synced local row where there is none, every local row becomes
    /// never-synced, the mirror is emptied, the last sync goes back to the epoch, the
    /// association is stored and the cached global state is dropped.
    pub fn reset(&mut self, assoc: &StoreSyncAssociation)
        requires
            old(self).wf(),
        ensures
            final(self).wf(),
            forall|g: Seq<char>|
                #[trigger] final(self).lv(g) == reset_local(old(self).lv(g), old(self).mv(g))
                    && final(self).mirror_of(g) is None,
            final(self).meta_spec().last_sync == Some(0i64),
            final(self).meta_spec().global_state is None,
            match assoc {
                StoreSyncAssociation::Disconnected => final(self).meta_spec().global_sync_id is None
                    && final(self).meta_spec().collection_sync_id is None,
                StoreSyncAssociation::Connected(ids) => opt_view(
                    final(self).meta_spec().global_sync_id,
                ) == Some(ids.global@) && opt_view(final(self).meta_spec().collection_sync_id)
                    == Some(ids.coll@),
            },
    {
        let keys = self.all_keys();
        let ghost s0 = *self;
        let mut i: usize = 0;
        while i < keys.len()
            invariant
                0 <= i <= keys@.len(),
                self.wf(),
                forall|g: Seq<char>|
                    #![trigger self.lv(g)]
                    #![trigger self.mv(g)]
                    if in_prefix(keys@, i as int, g) {
                        self.lv(g) == reset_local(s0.lv(g), s0.mv(g)) && self.mirror_of(g) is None
                    } else {
                        self.local_of(g) == s0.local_of(g) && self.mirror_of(g) == s0.mirror_of(g)
                    },
            decreases keys@.len() - i,
        {
            let ghost s1 = *self;
            if !seen_before(&keys, i) {
                self.reset_one(&keys[i]);
            }
            proof {
                assert forall|g: Seq<char>|
                    #![trigger self.lv(g)]
                    #![trigger self.mv(g)]
                    if in_prefix(keys@, i + 1, g) {
                        self.lv(g) == reset_local(s0.lv(g), s0.mv(g)) && self.mirror_of(g) is None
                    } else {
                        self.local_of(g) == s0.local_of(g) && self.mirror_of(g) == s0.mirror_of(g)
                    } by {
                    lemma_in_prefix_step(keys@, i as int, g);
                    if g != keys@[i as int]@ {
                        assert(s1.lv(g) == self.lv(g));
                    }
                }
            }
            i = i + 1;
        }
        assert forall|g: Seq<char>|
            #[trigger] self.lv(g) == reset_local(s0.lv(g), s0.mv(g)) && self.mirror_of(g) is None by {
            if !in_prefix(keys@, keys@.len() as int, g) {
                assert(s0.local_of(g) is None && s0.mirror_of(g) is None);
            }
        }
        let ghost s2 = *self;
        self.meta.last_sync = Some(0);
        match assoc {
            StoreSyncAssociation::Disconnected => {
                self.meta.global_sync_id = None;
                self.meta.collection_sync_id = None;
            },
            StoreSyncAssociation::Connected(ids) => {
                self.meta.global_sync_id = Some(ids.global.clone());
                self.meta.collection_sync_id = Some(ids.coll.clone());
            },
        }
        self.meta.global_state = None;
        proof {
            lemma_same_tables(self, &s2);
        }
    }

    /// Removes every row and all metadata, with no effect on the server.
    pub fn wipe_local(&mut self)
        ensures
            final(self).wf(),
            forall|g: Seq<char>| #[trigger] final(self).local_of(g) is None && final(self).mirror_of(g) is None,
            final(self).local_rows().len() == 0,
            final(self).mirror_rows().len() == 0,
            final(self).meta_spec().last_sync is None,
            final(self).meta_spec().global_state is None,
            final(self).meta_spec().global_sync_id is None,
            final(self).meta_spec().collection_sync_id is None,
    {
        let fresh = AddressesDb::new();
        self.local = fresh.local;
        self.mirror = fresh.mirror;
        self.meta = fresh.meta;
    }

    fn sync_one(&mut self, g: &String, ts: i64)
        requires
            old(self).wf(),
        ensures
            final(self).wf(),
            final(self).same_except(old(self), g@),
            final(self).local_of(g@) is None,
            final(self).mv(g@) == synced_mirror(old(self).lv(g@), ts),
    {
        let next = match self.local_index(g) {
            Some(i) => if self.local[i].is_deleted {
                None
            } else {
                Some(
                    MirrorAddress {
                        address: self.local[i].address.duplicate(),
                        server_modified: ts,
                        is_overridden: false,
                    },
                )
            },
            None => None,
        };
        proof {
            lemma_find_some(self.local@, g@);
        }
        self.set_guid(g, None, next);
    }

    /// Folds the local rows of `guids`, which the server now holds as of `ts`, into the
    /// mirror: each live one becomes a mirror row that is not overridden, each local row
    /// goes, and the last sync becomes `ts`.
    /// An interrupt leaves the store as it was and returns `Interrupted`.
    pub fn mark_as_synchronized(
        &mut self,
        guids: &Vec<String>,
        ts: i64,
        scope: &InterruptScope,
    ) -> (r: Result<(), ErrorKind>)
        requires
            old(self).wf(),
        ensures
            final(self).wf(),
            r is Ok || r == Err::<(), ErrorKind>(ErrorKind::Interrupted),
            guids@.len() == 0 ==> r is Ok,
            r is Err ==> final(self).same_state(old(self)),
            r is Ok ==> forall|g: Seq<char>|
                #![trigger final(self).lv(g)]
                #![trigger final(self).mv(g)]
                if in_prefix(guids@, guids@.len() as int, g) {
                    final(self).local_of(g) is None && final(self).mv(g) == synced_mirror(
                        old(self).lv(g),
                        ts,
                    )
                } else {
                    final(self).local_of(g) == old(self).local_of(g) && final(self).mirror_of(g)
                        == old(self).mirror_of(g)
                },
            r is Ok ==> final(self).meta_spec().last_sync == Some(ts),
            final(self).meta_spec().global_state == old(self).meta_spec().global_state,
            final(self).meta_spec().global_sync_id == old(self).meta_spec().global_sync_id,
            final(self).meta_spec().collection_sync_id == old(
                self,
            ).meta_spec().collection_sync_id,
    {
        let ghost s0 = *self;
        let saved = self.save_tables();
        let mut i: usize = 0;
        while i < guids.len()
            invariant
                0 <= i <= guids@.len(),
                saved.0@ == s0.local@,
                saved.1@ == s0.mirror@,
                s0 == *old(self),
                s0.wf(),
                self.wf(),
                self.meta_spec() == s0.meta_spec(),
                forall|g: Seq<char>|
                    #![trigger self.lv(g)]
                    #![trigger self.mv(g)]
                    if in_prefix(guids@, i as int, g) {
                        self.local_of(g) is None && self.mv(g) == synced_mirror(s0.lv(g), ts)
                    } else {
                        self.local_of(g) == s0.local_of(g) && self.mirror_of(g) == s0.mirror_of(g)
                    },
            decreases guids@.len() - i,
        {
            if scope.was_interrupted() {
                self.restore_tables(saved);
                proof {
                    lemma_same_tables(self, &s0);
                }
                return Err(ErrorKind::Interrupted);
            }
            let ghost s1 = *self;
            if !seen_before(guids, i) {
                self.sync_one(&guids[i], ts);
            }
            proof {
                assert forall|g: Seq<char>|
                    #![trigger self.lv(g)]
                    #![trigger self.mv(g)]
                    if in_prefix(guids@, i + 1, g) {
                        self.local_of(g) is None && self.mv(g) == synced_mirror(s0.lv(g), ts)
                    } else {
                        self.local_of(g) == s0.local_of(g) && self.mirror_of(g) == s0.mirror_of(g)
                    } by {
                    lemma_in_prefix_step(guids@, i as int, g);
                    if g != guids@[i as int]@ {
                        assert(s1.lv(g) == self.lv(g));
                    }
                }
            }
            i = i + 1;
        }
        let ghost s2 = *self;
        self.meta.last_sync = Some(ts);
        proof {
            lemma_same_tables(self, &s2);
        }
        Ok(())
    }

    /// The time of the last sync.
    pub fn get_last_sync(&self) -> (r: Option<i64>)
        ensures
            r == self.meta_spec().last_sync,
    {
        self.meta.last_sync
    }

    /// Stores the time of the last sync.
    pub fn set_last_sync(&mut self, ts: i64)
        ensures
            final(self).meta_spec().last_sync == Some(ts),
            final(self).meta_spec().global_state == old(self).meta_spec().global_state,
            final(self).meta_spec().global_sync_id == old(self).meta_spec().global_sync_id,
            final(self).meta_spec().collection_sync_id == old(self).meta_spec().collection_sync_id,
            final(self).local_rows() == old(self).local_rows(),
            final(self).mirror_rows() == old(self).mirror_rows(),
    {
        self.meta.last_sync = Some(ts);
    }

    /// Stores the global sync state; `None` is stored as the empty text.
    pub fn set_global_state(&mut self, state: &Option<String>)
        ensures
            opt_view(final(self).meta_spec().global_state) == Some(
                match state {
                    Some(s) => s@,
                    None => Seq::<char>::empty(),
                },
            ),
            final(self).meta_spec().last_sync == old(self).meta_spec().last_sync,
            final(self).meta_spec().global_sync_id == old(self).meta_spec().global_sync_id,
            final(self).meta_spec().collection_sync_id == old(self).meta_spec().collection_sync_id,
            final(self).local_rows() == old(self).local_rows(),
            final(self).mirror_rows() == old(self).mirror_rows(),
    {
        let to_write = match state {
            Some(s) => s.clone(),
            None => String::new(),
        };
        self.meta.global_state = Some(to_write);
    }

    /// The stored global sync state.
    pub fn get_global_state(&self) -> (r: Option<String>)
        ensures
            r == self.meta_spec().global_state,
    {
        clone_opt(&self.meta.global_state)
    }

    /// The stored association: connected only when both sync ids are stored.
    pub fn get_sync_assoc(&self) -> (r: StoreSyncAssociation)
        ensures
            match (self.meta_spec().global_sync_id, self.meta_spec().collection_sync_id) {
                (Some(gid), Some(cid)) => r matches StoreSyncAssociation::Connected(ids) && ids.global
                    == gid && ids.coll == cid,
                _ => r is Disconnected,
            },
    {
        match (&self.meta.global_sync_id, &self.meta.collection_sync_id) {
            (Some(gid), Some(cid)) => StoreSyncAssociation::Connected(
                CollSyncIds { global: gid.clone(), coll: cid.clone() },
            ),
            _ => StoreSyncAssociation::Disconnected,
        }
    }
    /// Removes the local rows of `guids`.
    fn delete_local_rows(&mut self, guids: &Vec<String>)
        requires
            old(self).wf(),
        ensures
            final(self).wf(),
            final(self).meta_spec() == old(self).meta_spec(),
            forall|g: Seq<char>|
                #![trigger final(self).lv(g)]
                #![trigger final(self).mv(g)]
                final(self).lv(g) == if in_prefix(guids@, guids@.len() as int, g) {
                    None
                } else {
                    old(self).lv(g)
                } && final(self).mirror_of(g) == old(self).mirror_of(g),
    {
        let ghost s0 = *self;
        let mut i: usize = 0;
        while i < guids.len()
            invariant
                0 <= i <= guids@.len(),
                self.wf(),
                self.meta_spec() == s0.meta_spec(),
                forall|g: Seq<char>|
                    #![trigger self.lv(g)]
                    #![trigger self.mv(g)]
                    self.lv(g) == if in_prefix(guids@, i as int, g) {
                        None
                    } else {
                        s0.lv(g)
                    } && self.mirror_of(g) == s0.mirror_of(g),
            decreases guids@.len() - i,
        {
            let ghost s1 = *self;
            let g = &guids[i];
            let m = match self.mirror_index(g) {
                Some(j) => Some(self.mirror[j].duplicate()),
                None => None,
            };
            proof {
                lemma_find_some(self.mirror@, g@);
            }
            self.set_guid(g, None, m);
            proof {
                assert forall|h: Seq<char>|
                    #![trigger self.lv(h)]
                    #![trigger self.mv(h)]
                    self.lv(h) == if in_prefix(guids@, i + 1, h) {
                        None
                    } else {
                        s0.lv(h)
                    } && self.mirror_of(h) == s0.mirror_of(h) by {
                    lemma_in_prefix_step(guids@, i as int, h);
                    if h != g@ {
                        assert(s1.lv(h) == self.lv(h));
                    }
                }
            }
            i = i + 1;
        }
    }

    /// Removes the mirror rows of `guids`.
    fn delete_mirror_rows(&mut self, guids: &Vec<String>)
        requires
            old(self).wf(),
        ensures
            final(self).wf(),
            final(self).meta_spec() == old(self).meta_spec(),
            forall|g: Seq<char>|
                #![trigger final(self).lv(g)]
                #![trigger final(self).mv(g)]
                final(self).mv(g) == if in_prefix(guids@, guids@.len() as int, g) {
                    None
                } else {
                    old(self).mv(g)
                } && final(self).local_of(g) == old(self).local_of(g),
    {
        let ghost s0 = *self;
        let mut i: usize = 0;
        while i < guids.len()
            invariant
                0 <= i <= guids@.len(),
                self.wf(),
                self.meta_spec() == s0.meta_spec(),
                forall|g: Seq<char>|
                    #![trigger self.lv(g)]
                    #![trigger self.mv(g)]
                    self.mv(g) == if in_prefix(guids@, i as int, g) {
                        None
                    } else {
                        s0.mv(g)
                    } && self.local_of(g) == s0.local_of(g),
            decreases guids@.len() - i,
        {
            let ghost s1 = *self;
            let g = &guids[i];
            let l = match self.local_index(g) {
                Some(j) => Some(self.local[j].duplicate()),
                None => None,
            };
            proof {
                lemma_find_some(self.local@, g@);
            }
            self.set_guid(g, l, None);
            proof {
                assert forall|h: Seq<char>|
                    #![trigger self.lv(h)]
                    #![trigger self.mv(h)]
                    self.mv(h) == if in_prefix(guids@, i + 1, h) {
                        None
                    } else {
                        s0.mv(h)
                    } && self.local_of(h) == s0.local_of(h) by {
                    lemma_in_prefix_step(guids@, i as int, h);
                    if h != g@ {
                        assert(s1.mv(h) == self.mv(h));
                    }
                }
            }
            i = i + 1;
        }
    }

    /// Writes each remote record of `ups` over the mirror row of its guid, where there is
    /// one; a zero in a count or a time keeps the value already stored.
    fn update_mirror_rows(&mut self, ups: &Vec<(Address, i64)>)
        requires
            old(self).wf(),
        ensures
            final(self).wf(),
            final(self).meta_spec() == old(self).meta_spec(),
            forall|g: Seq<char>|
                #![trigger final(self).lv(g)]
                #![trigger final(self).mv(g)]
                final(self).mv(g) == mirror_after_updates(old(self).mv(g), g, ups@)
                    && final(self).local_of(g) == old(self).local_of(g),
    {
        let ghost s0 = *self;
        let mut i: usize = 0;
        while i < ups.len()
            invariant
                0 <= i <= ups@.len(),
                self.wf(),
                self.meta_spec() == s0.meta_spec(),
                forall|g: Seq<char>|
                    #![trigger self.lv(g)]
                    #![trigger self.mv(g)]
                    self.mv(g) == mirror_after_updates(s0.mv(g), g, ups@.subrange(0, i as int))
                        && self.local_of(g) == s0.local_of(g),
            decreases ups@.len() - i,
        {
            let ghost s1 = *self;
            let a = &ups[i].0;
            let ts = ups[i].1;
            let g = &a.guid;
            match self.mirror_index(g) {
                Some(j) => {
                    let m = &self.mirror[j];
                    let row = MirrorAddress {
                        address: Address {
                            guid: m.address.guid.clone(),
                            hostname: a.hostname.clone(),
                            http_realm: clone_opt(&a.http_realm),
                            form_submit_url: clone_opt(&a.form_submit_url),
                            username_field: a.username_field.clone(),
                            password_field: a.password_field.clone(),
                            username: a.username.clone(),
                            password: a.password.clone(),
                            times_used: if a.times_used != 0 {
                                a.times_used
                            } else {
                                m.address.times_used
                            },
                            time_created: if a.time_created != 0 {
                                a.time_created
                            } else {
                                m.address.time_created
                            },
                            time_last_used: if a.time_last_used != 0 {
                                a.time_last_used
                            } else {
                                m.address.time_last_used
                            },
                            time_password_changed: if a.time_password_changed != 0 {
                                a.time_password_changed
                            } else {
                                m.address.time_password_changed
                            },
                        },
                        server_modified: ts,
                        is_overridden: m.is_overridden,
                    };
                    proof {
                        lemma_find_some(self.mirror@, g@);
                    }
                    let l = match self.local_index(g) {
                        Some(k) => Some(self.local[k].duplicate()),
                        None => None,
                    };
                    proof {
                        lemma_find_some(self.local@, g@);
                    }
                    self.set_guid(g, l, Some(row));
                },
                None => {},
            }
            proof {
                assert forall|h: Seq<char>|
                    #![trigger self.lv(h)]
                    #![trigger self.mv(h)]
                    self.mv(h) == mirror_after_updates(s0.mv(h), h, ups@.subrange(0, i + 1))
                        && self.local_of(h) == s0.local_of(h) by {
                    assert(ups@.subrange(0, i + 1).drop_last() =~= ups@.subrange(0, i as int));
                    if h != g@ {
                        assert(s1.mv(h) == self.mv(h));
                    }
                }
            }
            i = i + 1;
        }
        assert(ups@.subrange(0, ups@.len() as int) =~= ups@);
    }

    /// Makes a mirror row for each remote record of `ins` whose guid has none; it is
    /// overridden where the plan says so or a local row exists.
    fn insert_mirror_rows(&mut self, ins: &Vec<(Address, i64, bool)>)
        requires
            old(self).wf(),
        ensures
            final(self).wf(),
            final(self).meta_spec() == old(self).meta_spec(),
            forall|g: Seq<char>|
                #![trigger final(self).lv(g)]
                #![trigger final(self).mv(g)]
                final(self).mv(g) == mirror_after_inserts(
                    old(self).mv(g),
                    g,
                    old(self).local_of(g) is Some,
                    ins@,
                ) && final(self).local_of(g) == old(self).local_of(g),
    {
        let ghost s0 = *self;
        let mut i: usize = 0;
        while i < ins.len()
            invariant
                0 <= i <= ins@.len(),
                self.wf(),
                self.meta_spec() == s0.meta_spec(),
                forall|g: Seq<char>|
                    #![trigger self.lv(g)]
                    #![trigger self.mv(g)]
                    self.mv(g) == mirror_after_inserts(
                        s0.mv(g),
                        g,
                        s0.local_of(g) is Some,
                        ins@.subrange(0, i as int),
                    ) && self.local_of(g) == s0.local_of(g),
            decreases ins@.len() - i,
        {
            let ghost s1 = *self;
            let a = &ins[i].0;
            let g = &a.guid;
            match self.mirror_index(g) {
                Some(_) => {},
                None => {
                    let l = match self.local_index(g) {
                        Some(k) => Some(self.local[k].duplicate()),
                        None => None,
                    };
                    proof {
                        lemma_find_some(self.local@, g@);
                    }
                    let row = MirrorAddress {
                        address: a.duplicate(),
                        server_modified: ins[i].1,
                        is_overridden: ins[i].2 || l.is_some(),
                    };
                    self.set_guid(g, l, Some(row));
                },
            }
            proof {
                assert forall|h: Seq<char>|
                    #![trigger self.lv(h)]
                    #![trigger self.mv(h)]
                    self.mv(h) == mirror_after_inserts(
                        s0.mv(h),
                        h,
                        s0.local_of(h) is Some,
                        ins@.subrange(0, i + 1),
                    ) && self.local_of(h) == s0.local_of(h) by {
                    assert(ins@.subrange(0, i + 1).drop_last() =~= ins@.subrange(0, i as int));
                    if h != g@ {
                        assert(s1.mv(h) == self.mv(h));
                    }
                }
            }
            i = i + 1;
        }
        assert(ins@.subrange(0, ins@.len() as int) =~= ins@);
    }

    /// Replaces each local row named in `ups` by the merged record at `now`, where the row
    /// exists; the row then counts as changed at least.
    fn replace_local_rows(&mut self, ups: &Vec<MirrorAddress>, now: i64)
        requires
            old(self).wf(),
        ensures
            final(self).wf(),
            final(self).meta_spec() == old(self).meta_spec(),
            forall|g: Seq<char>|
                #![trigger final(self).lv(g)]
                #![trigger final(self).mv(g)]
                final(self).lv(g) == local_after_updates(old(self).lv(g), g, ups@, now)
                    && final(self).mirror_of(g) == old(self).mirror_of(g),
    {
        let ghost s0 = *self;
        let mut i: usize = 0;
        while i < ups.len()
            invariant
                0 <= i <= ups@.len(),
                self.wf(),
                self.meta_spec() == s0.meta_spec(),
                forall|g: Seq<char>|
                    #![trigger self.lv(g)]
                    #![trigger self.mv(g)]
                    self.lv(g) == local_after_updates(s0.lv(g), g, ups@.subrange(0, i as int), now)
                        && self.mirror_of(g) == s0.mirror_of(g),
            decreases ups@.len() - i,
        {
            let ghost s1 = *self;
            let m = &ups[i];
            let g = &m.address.guid;
            match self.local_index(g) {
                Some(k) => {
                    let l = &self.local[k];
                    let row = LocalAddress {
                        address: Address {
                            guid: l.address.guid.clone(),
                            hostname: m.address.hostname.clone(),
                            http_realm: clone_opt(&m.address.http_realm),
                            form_submit_url: clone_opt(&m.address.form_submit_url),
                            username_field: m.address.username_field.clone(),
                            password_field: m.address.password_field.clone(),
                            username: m.address.username.clone(),
                            password: m.address.password.clone(),
                            times_used: m.address.times_used,
                            time_created: m.address.time_created,
                            time_last_used: m.address.time_last_used,
                            time_password_changed: m.address.time_password_changed,
                        },
                        local_modified: now,
                        is_deleted: l.is_deleted,
                        sync_status: status_at_least(l.sync_status, SyncStatus::Changed),
                    };
                    proof {
                        lemma_find_some(self.local@, g@);
                    }
                    let mm = match self.mirror_index(g) {
                        Some(j) => Some(self.mirror[j].duplicate()),
                        None => None,
                    };
                    proof {
                        lemma_find_some(self.mirror@, g@);
                    }
                    self.set_guid(g, Some(row), mm);
                },
                None => {},
            }
            proof {
                assert forall|h: Seq<char>|
                    #![trigger self.lv(h)]
                    #![trigger self.mv(h)]
                    self.lv(h) == local_after_updates(s0.lv(h), h, ups@.subrange(0, i + 1), now)
                        && self.mirror_of(h) == s0.mirror_of(h) by {
                    assert(ups@.subrange(0, i + 1).drop_last() =~= ups@.subrange(0, i as int));
                    if h != g@ {
                        assert(s1.lv(h) == self.lv(h));
                    }
                }
            }
            i = i + 1;
        }
        assert(ups@.subrange(0, ups@.len() as int) =~= ups@);
    }
    /// Applies `plan` at local time `now`, in this order: deletions, mirror updates,
    /// mirror inserts, local replacements.
    /// An interrupt, checked between the phases, leaves the store as it was and returns
    /// `Interrupted`.
    pub fn execute_plan(&mut self, plan: &UpdatePlan, scope: &InterruptScope, now: i64) -> (r: Result<
        (),
        ErrorKind,
    >)
        requires
            old(self).wf(),
        ensures
            final(self).wf(),
            final(self).meta_spec() == old(self).meta_spec(),
            r is Ok || r == Err::<(), ErrorKind>(ErrorKind::Interrupted),
            r is Err ==> final(self).same_state(old(self)),
            r is Ok ==> forall|g: Seq<char>|
                #![trigger final(self).lv(g)]
                #![trigger final(self).mv(g)]
                final(self).lv(g) == planned_local(*plan, old(self).lv(g), g, now)
                    && final(self).mv(g) == planned_mirror(*plan, old(self).lv(g), old(self).mv(g), g),
    {
        let ghost s0 = *self;
        let saved = self.save_tables();
        self.delete_local_rows(&plan.delete_local);
        let ghost s1 = *self;
        self.delete_mirror_rows(&plan.delete_mirror);
        let ghost s2 = *self;
        if scope.was_interrupted() {
            self.restore_tables(saved);
            proof {
                lemma_same_tables(self, &s0);
            }
            return Err(ErrorKind::Interrupted);
        }
        self.update_mirror_rows(&plan.mirror_updates);
        let ghost s3 = *self;
        if scope.was_interrupted() {
            self.restore_tables(saved);
            proof {
                lemma_same_tables(self, &s0);
            }
            return Err(ErrorKind::Interrupted);
        }
        self.insert_mirror_rows(&plan.mirror_inserts);
        let ghost s4 = *self;
        if scope.was_interrupted() {
            self.restore_tables(saved);
            proof {
                lemma_same_tables(self, &s0);
            }
            return Err(ErrorKind::Interrupted);
        }
        self.replace_local_rows(&plan.local_updates, now);
        if scope.was_interrupted() {
            self.restore_tables(saved);
            proof {
                lemma_same_tables(self, &s0);
            }
            return Err(ErrorKind::Interrupted);
        }
        assert forall|g: Seq<char>|
            #![trigger self.lv(g)]
            #![trigger self.mv(g)]
            self.lv(g) == planned_local(*plan, s0.lv(g), g, now) && self.mv(g) == planned_mirror(
                *plan,
                s0.lv(g),
                s0.mv(g),
                g,
            ) by {
            assert(s1.lv(g) == s2.lv(g));
            assert(s2.lv(g) == s3.lv(g));
            assert(s3.lv(g) == s4.lv(g));
            assert(s1.mv(g) == s0.mv(g));
            assert(s4.mv(g) == self.mv(g));
            assert((s3.local_of(g) is Some) == (s1.lv(g) is Some));
        }
        Ok(())
    }

    /// The local row of guid `id`.
    pub fn get_local(&self, id: &str) -> (r: Option<LocalAddress>)
        requires
            self.wf(),
        ensures
            r == self.local_of(id@),
    {
        let g = String::from_str(id);
        match self.local_index(&g) {
            Some(i) => Some(self.local[i].duplicate()),
            None => None,
        }
    }

    /// The mirror row of guid `id`.
    pub fn get_mirror(&self, id: &str) -> (r: Option<MirrorAddress>)
        requires
            self.wf(),
        ensures
            r == self.mirror_of(id@),
    {
        let g = String::from_str(id);
        match self.mirror_index(&g) {
            Some(i) => Some(self.mirror[i].duplicate()),
            None => None,
        }
    }

    /// The first local row that looks like the same credential as the incoming `l`.
    pub fn find_dupe(&self, l: &Address) -> (r: Option<Address>)
        ensures
            match first_dupe(self.local_rows(), l@) {
                Some(x) => r is Some && r.unwrap() == x.address,
                None => r is None,
            },
    {
        let target = match &l.form_submit_url {
            Some(s) => url_host_port(s.as_str()),
            None => None,
        };
        self.find_dupe_for_target(l, &target)
    }

    /// The first local row that looks like the same credential as the incoming `l`, where
    /// `target` is the `host:port` of `l`'s form target, if it has one that parses.
    pub fn find_dupe_for_target(&self, l: &Address, target: &Option<String>) -> (r: Option<Address>)
        ensures
            match first_dupe_for(self.local_rows(), l@, opt_view(*target)) {
                Some(x) => r is Some && r.unwrap() == x.address,
                None => r is None,
            },
    {
        let ghost t = opt_view(*target);
        let mut i: usize = 0;
        while i < self.local.len()
            invariant
                0 <= i <= self.local@.len(),
                t == opt_view(*target),
                first_dupe_for(self.local@.subrange(0, i as int), l@, t) is None,
            decreases self.local@.len() - i,
        {
            let row = &self.local[i].address;
            let matched = row.hostname.eq(&l.hostname) && opt_eq(&row.http_realm, &l.http_realm)
                && row.username.eq(&l.username) && match target {
                Some(hp) => match &row.form_submit_url {
                    Some(f) => f.as_str().unicode_len() == 0 || find_text(f.as_str(), hp.as_str()),
                    None => false,
                },
                None => row.form_submit_url.is_none(),
            };
            assert(self.local@.subrange(0, i + 1).drop_last() =~= self.local@.subrange(0, i as int));
            if matched {
                proof {
                    lemma_first_dupe_prefix(self.local@, l@, t, i as int + 1);
                }
                return Some(row.duplicate());
            }
            i = i + 1;
        }
        assert(self.local@.subrange(0, self.local@.len() as int) =~= self.local@);
        None
    }
    /// The changes that the server does not have yet: every local row that is not synced,
    /// as a tombstone where it is deleted and as its record otherwise.
    pub fn fetch_outgoing(&self, st: ServerTimestamp, scope: &InterruptScope) -> (r: Result<
        OutgoingChangeset,
        ErrorKind,
    >)
        ensures
            r is Err ==> r == Err::<OutgoingChangeset, ErrorKind>(ErrorKind::Interrupted),
            self.local_rows().len() == 0 ==> r is Ok,
            r matches Ok(out) ==> {
                &&& out.collection@ == seq!['p', 'a', 's', 's', 'w', 'o', 'r', 'd', 's']
                &&& out.timestamp == st
                &&& out.changes@.map_values(|c: OutgoingChange| change_view(c)) == outgoing_of(
                    self.local_rows(),
                )
            },
    {
        let mut changes: Vec<OutgoingChange> = Vec::new();
        let mut i: usize = 0;
        while i < self.local.len()
            invariant
                0 <= i <= self.local@.len(),
                changes@.map_values(|c: OutgoingChange| change_view(c)) == outgoing_of(
                    self.local@.subrange(0, i as int),
                ),
            decreases self.local@.len() - i,
        {
            if scope.was_interrupted() {
                return Err(ErrorKind::Interrupted);
            }
            let row = &self.local[i];
            assert(self.local@.subrange(0, i + 1).drop_last() =~= self.local@.subrange(0, i as int));
            let ghost before = changes@;
            if row.sync_status != SyncStatus::Synced {
                let c = if row.is_deleted {
                    OutgoingChange {
                        guid: row.address.guid.clone(),
                        record: None,
                        sortindex: TOMBSTONE_SORTINDEX,
                    }
                } else {
                    OutgoingChange {
                        guid: row.address.guid.clone(),
                        record: Some(row.address.duplicate()),
                        sortindex: DEFAULT_SORTINDEX,
                    }
                };
                changes.push(c);
                assert(changes@.map_values(|c: OutgoingChange| change_view(c)) =~= before.map_values(
                    |c: OutgoingChange| change_view(c),
                ).push(change_view(c)));
            }
            i = i + 1;
        }
        assert(self.local@.subrange(0, self.local@.len() as int) =~= self.local@);
        proof {
            reveal_strlit("passwords");
        }
        Ok(OutgoingChangeset { collection: String::from_str("passwords"), timestamp: st, changes })
    }

    fn collect_live(&self, host: Option<&str>) -> (r: Vec<Address>)
        ensures
            address_views(r@) == live_local(self.local_rows(), match host {
                Some(h) => Some(h@),
                None => None,
            }) + live_mirror(self.mirror_rows(), match host {
                Some(h) => Some(h@),
                None => None,
            }),
    {
        let ghost hv = match host {
            Some(h) => Some(h@),
            None => None,
        };
        let host_s: Option<String> = match host {
            Some(h) => Some(String::from_str(h)),
            None => None,
        };
        let mut r: Vec<Address> = Vec::new();
        let mut i: usize = 0;
        while i < self.local.len()
            invariant
                0 <= i <= self.local@.len(),
                hv == opt_view(host_s),
                hv == match host {
                    Some(h) => Some(h@),
                    None => None::<Seq<char>>,
                },
                address_views(r@) == live_local(self.local@.subrange(0, i as int), hv),
            decreases self.local@.len() - i,
        {
            let row = &self.local[i];
            assert(self.local@.subrange(0, i + 1).drop_last() =~= self.local@.subrange(0, i as int));
            let ghost before = r@;
            let host_ok = match &host_s {
                Some(h) => row.address.hostname.eq(h),
                None => true,
            };
            if !row.is_deleted && host_ok {
                r.push(row.address.duplicate());
                assert(address_views(r@) =~= address_views(before).push(row.address@));
            }
            i = i + 1;
        }
        assert(self.local@.subrange(0, self.local@.len() as int) =~= self.local@);
        let ghost base = r@;
        let mut k: usize = 0;
        while k < self.mirror.len()
            invariant
                0 <= k <= self.mirror@.len(),
                hv == opt_view(host_s),
                hv == match host {
                    Some(h) => Some(h@),
                    None => None::<Seq<char>>,
                },
                address_views(base) == live_local(self.local@, hv),
                address_views(r@) == address_views(base) + live_mirror(
                    self.mirror@.subrange(0, k as int),
                    hv,
                ),
            decreases self.mirror@.len() - k,
        {
            let row = &self.mirror[k];
            assert(self.mirror@.subrange(0, k + 1).drop_last() =~= self.mirror@.subrange(0, k as int));
            let ghost before = r@;
            let host_ok = match &host_s {
                Some(h) => row.address.hostname.eq(h),
                None => true,
            };
            if !row.is_overridden && host_ok {
                r.push(row.address.duplicate());
                assert(address_views(r@) =~= address_views(before).push(row.address@));
            }
            k = k + 1;
        }
        assert(self.mirror@.subrange(0, self.mirror@.len() as int) =~= self.mirror@);
        r
    }

    /// Every record readers see: live local rows, then mirror rows no local row overrides.
    pub fn get_all(&self) -> (r: Vec<Address>)
        ensures
            address_views(r@) == live_local(self.local_rows(), None) + live_mirror(
                self.mirror_rows(),
                None,
            ),
    {
        self.collect_live(None)
    }

    /// The records readers see whose hostname is `hostname`.
    pub fn get_by_hostname(&self, hostname: &str) -> (r: Vec<Address>)
        ensures
            address_views(r@) == live_local(self.local_rows(), Some(hostname@)) + live_mirror(
                self.mirror_rows(),
                Some(hostname@),
            ),
    {
        self.collect_live(Some(hostname))
    }
    /// Loads `addresses` into an empty store as never-synced rows at `now`, and returns how
    /// many were invalid and skipped. A record keeps its guid where the server accepts it,
    /// else takes `fresh_guids` at its index. A store that holds any row refuses.
    pub fn import_multiple(
        &mut self,
        addresses: &Vec<Address>,
        now: i64,
        fresh_guids: &Vec<String>,
    ) -> (r: Result<u64, ErrorKind>)
        requires
            old(self).wf(),
            fresh_guids@.len() >= addresses@.len(),
        ensures
            final(self).wf(),
            final(self).meta_spec() == old(self).meta_spec(),
            if old(self).local_rows().len() > 0 || old(self).mirror_rows().len() > 0 {
                r == Err::<u64, ErrorKind>(ErrorKind::NonEmptyTable) && *final(self) == *old(self)
            } else {
                &&& r == Ok::<u64, ErrorKind>(invalid_count(addresses@) as u64)
                &&& forall|g: Seq<char>|
                    #![trigger final(self).lv(g)]
                    #![trigger final(self).mv(g)]
                    final(self).lv(g) == imported(addresses@, fresh_guids@, now, g)
                        && final(self).mirror_of(g) is None
            },
    {
        if self.local.len() > 0 || self.mirror.len() > 0 {
            return Err(ErrorKind::NonEmptyTable);
        }
        proof {
            assert forall|g: Seq<char>| #[trigger] self.local_of(g) is None && self.mirror_of(g) is None by {
                lemma_find_none(self.local@, g);
                lemma_find_none(self.mirror@, g);
            }
        }
        let mut num_failed: u64 = 0;
        let mut i: usize = 0;
        while i < addresses.len()
            invariant
                0 <= i <= addresses@.len(),
                fresh_guids@.len() >= addresses@.len(),
                unique_keys(self.local@),
                self.mirror@.len() == 0,
                self.meta == old(self).meta,
                num_failed == invalid_count(addresses@.subrange(0, i as int)),
                num_failed <= i,
                forall|g: Seq<char>|
                    #![trigger self.lv(g)]
                    #![trigger self.local_of(g)]
                    self.lv(g) == imported(addresses@.subrange(0, i as int), fresh_guids@, now, g),
            decreases addresses@.len() - i,
        {
            let a = &addresses[i];
            let ghost s1 = *self;
            let ghost sub = addresses@.subrange(0, i + 1);
            assert(sub.drop_last() =~= addresses@.subrange(0, i as int));
            assert(sub.len() - 1 == i);
            match a.check_valid() {
                Err(_) => {
                    num_failed = num_failed + 1;
                },
                Ok(()) => {
                    let guid = if is_valid_for_sync_server(a.guid.as_str()) {
                        a.guid.clone()
                    } else {
                        fresh_guids[i].clone()
                    };
                    if self.local_index(&guid).is_none() {
                        let mut rec = a.duplicate();
                        rec.guid = guid;
                        let row = LocalAddress {
                            address: rec,
                            local_modified: now,
                            is_deleted: false,
                            sync_status: SyncStatus::New,
                        };
                        self.put_local(row);
                    }
                    proof {
                        assert forall|g: Seq<char>|
                            #![trigger self.lv(g)]
                            #![trigger self.local_of(g)]
                            self.lv(g) == imported(sub, fresh_guids@, now, g) by {
                            assert(s1.lv(g) == imported(
                                addresses@.subrange(0, i as int),
                                fresh_guids@,
                                now,
                                g,
                            ));
                        }
                    }
                },
            }
            assert forall|g: Seq<char>|
                #![trigger self.lv(g)]
                #![trigger self.local_of(g)]
                self.lv(g) == imported(sub, fresh_guids@, now, g) by {
                assert(s1.lv(g) == imported(addresses@.subrange(0, i as int), fresh_guids@, now, g));
            }
            i = i + 1;
        }
        assert(addresses@.subrange(0, addresses@.len() as int) =~= addresses@);
        assert forall|g: Seq<char>| #[trigger] self.mirror_of(g) is None by {
            lemma_find_none(self.mirror@, g);
        }
        Ok(num_failed)
    }
}

} // verus!
