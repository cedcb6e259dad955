use vstd::prelude::*;

use crate::db::{AddressesDb};
use crate::error::ErrorKind;
use crate::interrupt::InterruptScope;
use crate::record::{Address, AddressView, LocalAddress, MirrorAddress};
use crate::telemetry::{clamp_u32, raised, EngineIncoming};
use crate::transitions::{seen_before};
use crate::util::ServerTimestamp;

verus! {

/// What an incoming payload turned out to hold once read.
#[derive(Debug, Clone)]
pub enum PayloadBody {
    /// A deletion marker.
    Tombstone,
    /// A record.
    Record(Address),
    /// Something that is not a record.
    Malformed,
}

/// An incoming change: the identity it names and what it holds.
#[derive(Debug, Clone)]
pub struct Payload {
    pub id: String,
    pub body: PayloadBody,
}

/// One incoming record with whatever rows the store holds for its guid.
#[derive(Debug)]
pub struct SyncAddressData {
    pub guid: String,
    /// The remote record (`None` for a deletion) and its server time.
    pub inbound: (Option<Address>, ServerTimestamp),
    pub local: Option<LocalAddress>,
    pub mirror: Option<MirrorAddress>,
}

/// The remote record that a payload holds, under the payload's identity.
pub open spec fn inbound_of(p: Payload) -> Option<AddressView> {
    match p.body {
        PayloadBody::Record(a) => Some(AddressView { guid: p.id@, ..a@ }),
        _ => None,
    }
}

/// The incoming changes that are not malformed, in their order.
pub open spec fn readable(s: Seq<(Payload, ServerTimestamp)>) -> Seq<(Payload, ServerTimestamp)>
    decreases s.len(),
{
    if s.len() == 0 {
        Seq::empty()
    } else if s.last().0.body is Malformed {
        readable(s.drop_last())
    } else {
        readable(s.drop_last()).push(s.last())
    }
}

/// Two incoming changes name the same identity.
pub open spec fn has_repeat(s: Seq<(Payload, ServerTimestamp)>) -> bool {
    exists|i: int, j: int| 0 <= i < j < s.len() && #[trigger] s[i].0.id@ == #[trigger] s[j].0.id@
}

/// The entry at `j` is the first to name an identity that an earlier entry named.
pub open spec fn first_repeat(s: Seq<(Payload, ServerTimestamp)>, j: int) -> bool {
    &&& exists|i: int| 0 <= i < j && #[trigger] s[i].0.id@ == s[j].0.id@
    &&& forall|a: int, b: int| 0 <= a < b < j ==> #[trigger] s[a].0.id@ != #[trigger] s[b].0.id@
}

/// The view that the store builds for the readable incoming change `e`.
pub open spec fn view_matches(db: AddressesDb, d: SyncAddressData, e: (Payload, ServerTimestamp)) -> bool {
    &&& d.guid@ == e.0.id@
    &&& match d.inbound.0 {
        Some(a) => inbound_of(e.0) == Some(a@),
        None => inbound_of(e.0) is None,
    }
    &&& d.inbound.1 == e.1
    &&& d.local == db.local_of(e.0.id@)
    &&& d.mirror == db.mirror_of(e.0.id@)
}

fn inbound_record(id: &String, a: &Address) -> (r: Address)
    ensures
        r@ == (AddressView { guid: id@, ..a@ }),
{
    let mut r = a.duplicate();
    r.guid = id.clone();
    r
}

impl AddressesDb {
    /// Reads a batch of incoming changes and pairs each with the rows the store holds for
    /// its identity. A batch that names one identity twice is refused whole. A malformed
    /// payload is left out and counted as failed; deletion markers are kept.
    pub fn fetch_address_data(
        &self,
        records: &Vec<(Payload, ServerTimestamp)>,
        telem: &mut EngineIncoming,
        scope: &InterruptScope,
    ) -> (r: Result<Vec<SyncAddressData>, ErrorKind>)
        requires
            self.wf(),
        ensures
            has_repeat(records@) ==> r matches Err(ErrorKind::DuplicateGuid(_)),
            r matches Err(ErrorKind::DuplicateGuid(s)) ==> has_repeat(records@) && exists|j: int|
                0 <= j < records@.len() && records@[j].0.id@ == s@ && #[trigger] first_repeat(
                    records@,
                    j,
                ),
            records@.len() == 0 ==> r is Ok,
            r matches Err(e) ==> (e matches ErrorKind::DuplicateGuid(_)) || e
                == ErrorKind::Interrupted,
            r is Err ==> *final(telem) == *old(telem),
            r matches Ok(v) ==> {
                &&& v@.len() == readable(records@).len()
                &&& forall|k: int|
                    0 <= k < v@.len() ==> view_matches(*self, #[trigger] v@[k], readable(records@)[k])
                &&& *final(telem) == (EngineIncoming {
                    failed: raised(
                        old(telem).failed,
                        clamp_u32(records@.len() - readable(records@).len()),
                    ),
                    ..*old(telem)
                })
            },
    {
        let mut ids: Vec<String> = Vec::new();
        let mut i: usize = 0;
        while i < records.len()
            invariant
                0 <= i <= records@.len(),
                ids@.len() == i,
                forall|j: int| 0 <= j < i ==> #[trigger] ids@[j]@ == records@[j].0.id@,
                forall|a: int, b: int|
                    0 <= a < b < i ==> #[trigger] records@[a].0.id@ != #[trigger] records@[b].0.id@,
            decreases records@.len() - i,
        {
            ids.push(records[i].0.id.clone());
            if seen_before(&ids, i) {
                proof {
                    let a = choose|a: int| 0 <= a < i && #[trigger] ids@[a]@ == ids@[i as int]@;
                    assert(records@[a].0.id@ == records@[i as int].0.id@);
                    assert(first_repeat(records@, i as int));
                }
                return Err(ErrorKind::DuplicateGuid(records[i].0.id.clone()));
            }
            assert forall|a: int, b: int|
                0 <= a < b < i + 1 implies #[trigger] records@[a].0.id@ != #[trigger] records@[b].0.id@ by {
                if b == i {
                    assert(ids@[a]@ == records@[a].0.id@);
                }
            }
            i = i + 1;
        }
        let mut failed: usize = 0;
        let mut out: Vec<SyncAddressData> = Vec::new();
        let mut k: usize = 0;
        while k < records.len()
            invariant
                0 <= k <= records@.len(),
                !has_repeat(records@),
                self.wf(),
                failed as int == k - readable(records@.subrange(0, k as int)).len(),
                out@.len() == readable(records@.subrange(0, k as int)).len(),
                forall|j: int|
                    0 <= j < out@.len() ==> view_matches(
                        *self,
                        #[trigger] out@[j],
                        readable(records@.subrange(0, k as int))[j],
                    ),
            decreases records@.len() - k,
        {
            if scope.was_interrupted() {
                return Err(ErrorKind::Interrupted);
            }
            let (p, ts) = &records[k];
            assert(records@.subrange(0, k + 1).drop_last() =~= records@.subrange(0, k as int));
            match &p.body {
                PayloadBody::Malformed => {
                    failed = failed + 1;
                },
                PayloadBody::Tombstone => {
                    out.push(
                        SyncAddressData {
                            guid: p.id.clone(),
                            inbound: (None, *ts),
                            local: self.get_local(p.id.as_str()),
                            mirror: self.get_mirror(p.id.as_str()),
                        },
                    );
                },
                PayloadBody::Record(a) => {
                    out.push(
                        SyncAddressData {
                            guid: p.id.clone(),
                            inbound: (Some(inbound_record(&p.id, a)), *ts),
                            local: self.get_local(p.id.as_str()),
                            mirror: self.get_mirror(p.id.as_str()),
                        },
                    );
                },
            }
            k = k + 1;
        }
        assert(records@.subrange(0, records@.len() as int) =~= records@);
        let n: u32 = if failed > u32::MAX as usize {
            u32::MAX
        } else {
            failed as u32
        };
        telem.failed(n);
        Ok(out)
    }
}

} // verus!
