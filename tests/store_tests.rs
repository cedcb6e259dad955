use addresses::db::{AddressesDb, CollSyncIds, StoreSyncAssociation};
use addresses::error::{ErrorKind, InvalidAddress};
use addresses::incoming::{Payload, PayloadBody};
use addresses::record::{Address, SyncStatus};
use addresses::store::{AddressesStore, IncomingChangeset};
use addresses::telemetry::EngineIncoming;
use addresses::update_plan::UpdatePlan;
use addresses::util::ServerTimestamp;

fn record(guid: &str, hostname: &str, username: &str, password: &str) -> Address {
    Address {
        guid: guid.to_string(),
        hostname: hostname.to_string(),
        http_realm: None,
        form_submit_url: Some("https://www.example.com/submit".to_string()),
        username_field: String::new(),
        password_field: String::new(),
        username: username.to_string(),
        password: password.to_string(),
        times_used: 0,
        time_created: 0,
        time_last_used: 0,
        time_password_changed: 0,
    }
}

fn payload(id: &str, body: PayloadBody) -> Payload {
    Payload { id: id.to_string(), body }
}

#[test]
fn test_bad_record() {
    let db = AddressesDb::new();
    let scope = db.begin_interrupt_scope();
    let mut telem = EngineIncoming::new();
    let valid = record(
        "dummy_000003",
        "https://www.example.com",
        "test",
        "test",
    );
    let res = db
        .fetch_address_data(
            &vec![
                // tombstone
                (payload("dummy_000001", PayloadBody::Tombstone), ServerTimestamp(10000)),
                // invalid
                (payload("dummy_000002", PayloadBody::Malformed), ServerTimestamp(10000)),
                // valid
                (payload("dummy_000003", PayloadBody::Record(valid)), ServerTimestamp(10000)),
            ],
            &mut telem,
            &scope,
        )
        .unwrap();
    assert_eq!(telem.get_failed(), 1);
    assert_eq!(res.len(), 2);
    assert_eq!(res[0].guid, "dummy_000001");
    assert_eq!(res[1].guid, "dummy_000003");
    assert!(res[0].inbound.0.is_none());
    assert_eq!(res[1].inbound.0.as_ref().unwrap().username, "test");
}

#[test]
fn add_then_get() {
    let mut db = AddressesDb::new();
    let added = db.add(record("aaaaaaaaaaaa", "https://a.com", "u", "p"), 1000, "unused").unwrap();
    assert_eq!(added.guid, "aaaaaaaaaaaa");
    assert_eq!(added.times_used, 1);
    assert_eq!(added.time_created, 1000);
    assert_eq!(added.time_password_changed, 1000);
    assert_eq!(added.time_last_used, 1000);
    let got = db.get_by_id("aaaaaaaaaaaa").unwrap();
    assert_eq!(got.hostname, "https://a.com");
    assert!(db.record_exists("aaaaaaaaaaaa"));
    assert_eq!(db.get_local("aaaaaaaaaaaa").unwrap().sync_status, SyncStatus::New);
}

#[test]
fn add_with_empty_guid_takes_fresh_one() {
    let mut db = AddressesDb::new();
    let added = db.add(record("", "https://a.com", "u", "p"), 5, "bbbbbbbbbbbb").unwrap();
    assert_eq!(added.guid, "bbbbbbbbbbbb");
    assert!(db.get_by_id("bbbbbbbbbbbb").is_some());
}

#[test]
fn add_twice_is_duplicate() {
    let mut db = AddressesDb::new();
    db.add(record("aaaaaaaaaaaa", "https://a.com", "u", "p"), 1000, "x").unwrap();
    let second = db.add(record("aaaaaaaaaaaa", "https://b.com", "v", "q"), 2000, "x");
    assert_eq!(second.unwrap_err(), ErrorKind::DuplicateGuid("aaaaaaaaaaaa".to_string()));
    let got = db.get_by_id("aaaaaaaaaaaa").unwrap();
    assert_eq!(got.hostname, "https://a.com");
    assert_eq!(got.username, "u");
    assert_eq!(got.time_created, 1000);
}

#[test]
fn add_invalid_records() {
    let mut db = AddressesDb::new();
    let r = db.add(record("g1", "", "u", "p"), 1, "x");
    assert_eq!(r.unwrap_err(), ErrorKind::InvalidRecord(InvalidAddress::EmptyHostname));
    let r = db.add(record("g1", "https://a.com", "u", ""), 1, "x");
    assert_eq!(r.unwrap_err(), ErrorKind::InvalidRecord(InvalidAddress::EmptyPassword));
    let mut both = record("g1", "https://a.com", "u", "p");
    both.http_realm = Some("realm".to_string());
    assert_eq!(
        db.add(both, 1, "x").unwrap_err(),
        ErrorKind::InvalidRecord(InvalidAddress::BothTargets)
    );
    let mut none = record("g1", "https://a.com", "u", "p");
    none.form_submit_url = None;
    assert_eq!(
        db.add(none, 1, "x").unwrap_err(),
        ErrorKind::InvalidRecord(InvalidAddress::NoTarget)
    );
    assert!(db.get_all().is_empty());
}

#[test]
fn update_changes_fields_and_status() {
    let mut db = AddressesDb::new();
    db.add(record("g1", "https://a.com", "u", "p"), 100, "x").unwrap();
    db.update(record("g1", "https://a.com", "u2", "p"), 200).unwrap();
    let l = db.get_local("g1").unwrap();
    assert_eq!(l.address.username, "u2");
    assert_eq!(l.address.times_used, 2);
    assert_eq!(l.address.time_password_changed, 100);
    assert_eq!(l.address.time_last_used, 200);
    assert_eq!(l.sync_status, SyncStatus::Changed);
    db.update(record("g1", "https://a.com", "u2", "new"), 300).unwrap();
    assert_eq!(db.get_local("g1").unwrap().address.time_password_changed, 300);
}

#[test]
fn update_and_touch_unknown_record() {
    let mut db = AddressesDb::new();
    assert_eq!(
        db.update(record("nope", "https://a.com", "u", "p"), 1).unwrap_err(),
        ErrorKind::NoSuchRecord("nope".to_string())
    );
    assert_eq!(db.touch("nope", 1).unwrap_err(), ErrorKind::NoSuchRecord("nope".to_string()));
}

#[test]
fn touch_counts_a_use() {
    let mut db = AddressesDb::new();
    db.add(record("g1", "https://a.com", "u", "p"), 100, "x").unwrap();
    db.touch("g1", 500).unwrap();
    let l = db.get_local("g1").unwrap();
    assert_eq!(l.address.times_used, 2);
    assert_eq!(l.address.time_last_used, 500);
    assert_eq!(l.local_modified, 500);
    assert_eq!(l.sync_status, SyncStatus::New);
}

fn synced_store(guid: &str) -> AddressesStore {
    let mut db = AddressesDb::new();
    db.add(record(guid, "https://a.com", "u", "p"), 100, "x").unwrap();
    let mut store = AddressesStore::new(db);
    store.sync_finished(ServerTimestamp(1234), &vec![guid.to_string()]).unwrap();
    store
}

#[test]
fn mark_as_synchronized_folds_into_mirror() {
    let store = synced_store("g1");
    assert!(store.db.get_local("g1").is_none());
    let m = store.db.get_mirror("g1").unwrap();
    assert_eq!(m.server_modified, 1234);
    assert!(!m.is_overridden);
    assert_eq!(store.db.get_last_sync(), Some(1234));
    assert_eq!(store.db.get_by_id("g1").unwrap().username, "u");
    assert_eq!(store.get_collection_request().newer_than, ServerTimestamp(1234));
}

#[test]
fn delete_synced_record_leaves_tombstone() {
    let mut store = synced_store("g1");
    assert!(store.db.delete("g1", 2000));
    assert!(store.db.get_by_id("g1").is_none());
    assert!(!store.db.record_exists("g1"));
    let out = store.db.fetch_outgoing(ServerTimestamp(3000), &store.db.begin_interrupt_scope()).unwrap();
    assert_eq!(out.changes.len(), 1);
    assert_eq!(out.changes[0].guid, "g1");
    assert!(out.changes[0].record.is_none());
    assert_eq!(out.changes[0].sortindex, 5_000_000);
    assert!(store.db.get_mirror("g1").unwrap().is_overridden);
    store.sync_finished(ServerTimestamp(4000), &vec!["g1".to_string()]).unwrap();
    assert!(store.db.fetch_outgoing(ServerTimestamp(4000), &store.db.begin_interrupt_scope()).unwrap().changes.is_empty());
    assert!(store.db.get_mirror("g1").is_none());
}

#[test]
fn delete_never_synced_record_is_gone() {
    let mut db = AddressesDb::new();
    db.add(record("g1", "https://a.com", "u", "p"), 1, "x").unwrap();
    assert!(db.delete("g1", 2));
    assert!(db.get_local("g1").is_none());
    assert!(db.fetch_outgoing(ServerTimestamp(0), &db.begin_interrupt_scope()).unwrap().changes.is_empty());
    assert!(!db.delete("g1", 3));
}

#[test]
fn outgoing_live_record_has_default_sortindex() {
    let mut db = AddressesDb::new();
    db.add(record("g1", "https://a.com", "u", "p"), 1, "x").unwrap();
    let out = db.fetch_outgoing(ServerTimestamp(77), &db.begin_interrupt_scope()).unwrap();
    assert_eq!(out.collection, "passwords");
    assert_eq!(out.timestamp, ServerTimestamp(77));
    assert_eq!(out.changes.len(), 1);
    assert_eq!(out.changes[0].sortindex, 1);
    assert_eq!(out.changes[0].record.as_ref().unwrap().hostname, "https://a.com");
}

#[test]
fn wipe_tombstones_every_synced_record() {
    let mut store = synced_store("g1");
    store.db.add(record("g2", "https://b.com", "u", "p"), 5, "x").unwrap();
    store.db.update(record("g1", "https://a.com", "changed", "p"), 6).unwrap();
    store.wipe(7000).unwrap();
    assert!(store.db.get_by_id("g1").is_none());
    assert!(store.db.get_by_id("g2").is_none());
    assert!(store.db.get_all().is_empty());
    let out = store.db.fetch_outgoing(ServerTimestamp(8000), &store.db.begin_interrupt_scope()).unwrap();
    assert_eq!(out.changes.len(), 1);
    assert_eq!(out.changes[0].guid, "g1");
    assert!(out.changes[0].record.is_none());
    assert_eq!(out.changes[0].sortindex, 5_000_000);
}

#[test]
fn wipe_of_mirror_only_record_synthesizes_tombstone() {
    let mut store = synced_store("g1");
    store.wipe(9).unwrap();
    let l = store.db.get_local("g1").unwrap();
    assert!(l.is_deleted);
    assert_eq!(l.sync_status, SyncStatus::Changed);
    assert_eq!(l.address.password, "");
    assert!(store.db.get_mirror("g1").unwrap().is_overridden);
}

#[test]
fn reset_connected_clears_mirror() {
    let mut store = synced_store("g1");
    store.db.add(record("g2", "https://b.com", "u", "p"), 5, "x").unwrap();
    let ids = CollSyncIds { global: "gid".to_string(), coll: "cid".to_string() };
    store.reset(&StoreSyncAssociation::Connected(ids));
    match store.get_sync_assoc() {
        StoreSyncAssociation::Connected(ids) => {
            assert_eq!(ids.global, "gid");
            assert_eq!(ids.coll, "cid");
        }
        StoreSyncAssociation::Disconnected => panic!("expected a connected association"),
    }
    assert!(store.db.get_mirror("g1").is_none());
    assert_eq!(store.db.get_local("g1").unwrap().sync_status, SyncStatus::New);
    assert_eq!(store.db.get_local("g2").unwrap().sync_status, SyncStatus::New);
    assert_eq!(store.db.get_last_sync(), Some(0));
    store.reset(&StoreSyncAssociation::Disconnected);
    assert!(matches!(store.get_sync_assoc(), StoreSyncAssociation::Disconnected));
}

#[test]
fn wipe_local_empties_everything() {
    let mut store = synced_store("g1");
    store.db.set_global_state(&Some("state".to_string()));
    assert_eq!(store.db.get_global_state(), Some("state".to_string()));
    store.db.wipe_local();
    assert!(store.db.get_all().is_empty());
    assert_eq!(store.db.get_last_sync(), None);
    assert_eq!(store.db.get_global_state(), None);
    store.db.set_global_state(&None);
    assert_eq!(store.db.get_global_state(), Some(String::new()));
}

#[test]
fn import_into_empty_store() {
    let mut db = AddressesDb::new();
    let n = db
        .import_multiple(
            &vec![
                record("aaaaaaaaaaaa", "https://a.com", "u", "p"),
                record("bad,guid", "https://b.com", "u", "p"),
                record("cccccccccccc", "", "u", "p"),
            ],
            10,
            &vec!["f1".to_string(), "f2".to_string(), "f3".to_string()],
        )
        .unwrap();
    assert_eq!(n, 1);
    assert!(db.get_by_id("aaaaaaaaaaaa").is_some());
    assert_eq!(db.get_by_id("f2").unwrap().hostname, "https://b.com");
    assert!(db.get_by_id("cccccccccccc").is_none());
    assert_eq!(db.get_local("f2").unwrap().sync_status, SyncStatus::New);
    let again = db.import_multiple(&vec![], 11, &vec![]);
    assert_eq!(again.unwrap_err(), ErrorKind::NonEmptyTable);
}

#[test]
fn get_all_and_by_hostname() {
    let mut store = synced_store("g1");
    store.db.add(record("g2", "https://b.com", "u", "p"), 5, "x").unwrap();
    store.db.add(record("g3", "https://b.com", "w", "p"), 5, "x").unwrap();
    assert_eq!(store.db.get_all().len(), 3);
    let b = store.db.get_by_hostname("https://b.com");
    assert_eq!(b.len(), 2);
    assert_eq!(b[0].guid, "g2");
    assert_eq!(b[1].guid, "g3");
    assert_eq!(store.db.get_by_hostname("https://a.com").len(), 1);
}

#[test]
fn duplicate_identity_fails_whole_batch() {
    let mut store = synced_store("g1");
    let mut telem = EngineIncoming::new();
    let batch = IncomingChangeset {
        changes: vec![
            (payload("g9", PayloadBody::Record(record("", "https://z.com", "u", "p"))), ServerTimestamp(5)),
            (payload("g9", PayloadBody::Tombstone), ServerTimestamp(5)),
        ],
        timestamp: ServerTimestamp(5),
    };
    let r = store.apply_incoming(&batch, 10, &mut telem);
    assert_eq!(r.unwrap_err(), ErrorKind::DuplicateGuid("g9".to_string()));
    assert!(store.db.get_by_id("g9").is_none());
    assert!(store.db.get_mirror("g9").is_none());
    assert_eq!(telem, EngineIncoming::new());
}

#[test]
fn incoming_new_record_goes_to_mirror() {
    let mut store = AddressesStore::new(AddressesDb::new());
    let mut telem = EngineIncoming::new();
    let batch = IncomingChangeset {
        changes: vec![(
            payload("r1", PayloadBody::Record(record("", "https://r.com", "ru", "rp"))),
            ServerTimestamp(50),
        )],
        timestamp: ServerTimestamp(60),
    };
    let out = store.apply_incoming(&batch, 100, &mut telem).unwrap();
    assert!(out.changes.is_empty());
    let m = store.db.get_mirror("r1").unwrap();
    assert_eq!(m.server_modified, 50);
    assert!(!m.is_overridden);
    assert_eq!(store.db.get_by_id("r1").unwrap().username, "ru");
    assert_eq!(telem.get_applied(), 1);
}

#[test]
fn incoming_tombstone_deletes_both_rows() {
    let mut store = synced_store("g1");
    store.db.update(record("g1", "https://a.com", "v", "p"), 10).unwrap();
    let mut telem = EngineIncoming::new();
    let batch = IncomingChangeset {
        changes: vec![(payload("g1", PayloadBody::Tombstone), ServerTimestamp(70))],
        timestamp: ServerTimestamp(70),
    };
    store.apply_incoming(&batch, 100, &mut telem).unwrap();
    assert!(store.db.get_local("g1").is_none());
    assert!(store.db.get_mirror("g1").is_none());
    assert_eq!(telem.get_applied(), 0);
    assert_eq!(telem.get_reconciled(), 0);
}

#[test]
fn three_way_merge_keeps_disjoint_edits() {
    let mut store = synced_store("g1");
    // local edit of the username
    store.db.update(record("g1", "https://a.com", "local-user", "p"), 500).unwrap();
    // remote edit of the password only
    let mut remote = record("g1", "https://a.com", "u", "remote-pass");
    remote.time_password_changed = 600;
    let mut telem = EngineIncoming::new();
    let batch = IncomingChangeset {
        changes: vec![(payload("g1", PayloadBody::Record(remote)), ServerTimestamp(2000))],
        timestamp: ServerTimestamp(2000),
    };
    store.apply_incoming(&batch, 1000, &mut telem).unwrap();
    let merged = store.db.get_by_id("g1").unwrap();
    assert_eq!(merged.username, "local-user");
    assert_eq!(merged.password, "remote-pass");
    assert_eq!(telem.get_reconciled(), 1);
    let m = store.db.get_mirror("g1").unwrap();
    assert_eq!(m.address.password, "remote-pass");
    assert_eq!(m.address.username, "u");
    assert_eq!(m.server_modified, 2000);
}

#[test]
fn delta_merge_and_apply() {
    let base = record("g", "https://a.com", "u", "p");
    let local = record("g", "https://a.com", "lu", "p");
    let remote = record("g", "https://a.com", "u", "rp");
    let d = local.delta(&base).merge(remote.delta(&base), true);
    let mut out = base.clone();
    out.apply_delta(d);
    assert_eq!(out.username, "lu");
    assert_eq!(out.password, "rp");
    // both sides change the same field: the preferred side wins
    let l2 = record("g", "https://a.com", "left", "p");
    let r2 = record("g", "https://a.com", "right", "p");
    let mut a = base.clone();
    a.apply_delta(l2.delta(&base).merge(r2.delta(&base), false));
    assert_eq!(a.username, "left");
    let mut b = base.clone();
    b.apply_delta(l2.delta(&base).merge(r2.delta(&base), true));
    assert_eq!(b.username, "right");
}

#[test]
fn two_way_merge_prefers_newer_password() {
    let mut local = record("l", "https://a.com", "u", "p");
    local.time_password_changed = 10;
    let mut up = record("up", "https://a.com", "u", "p2");
    up.time_password_changed = 20;
    let mut plan = UpdatePlan::new();
    plan.plan_two_way_merge(&local, (up.clone(), ServerTimestamp(5)));
    assert_eq!(plan.mirror_inserts.len(), 1);
    assert!(!plan.mirror_inserts[0].2);
    assert_eq!(plan.delete_local, vec!["l".to_string()]);

    local.time_password_changed = 30;
    let mut plan2 = UpdatePlan::new();
    plan2.plan_two_way_merge(&local, (up, ServerTimestamp(5)));
    assert!(plan2.mirror_inserts[0].2);
    assert!(plan2.delete_local.is_empty());
}

#[test]
fn incoming_dupe_of_local_record_merges() {
    let mut db = AddressesDb::new();
    let mut mine = record("mine", "https://a.com", "u", "p");
    mine.form_submit_url = Some("https://www.example.com/login".to_string());
    db.add(mine, 100, "x").unwrap();
    let found = db.find_dupe(&record("theirs", "https://a.com", "u", "p2"));
    assert_eq!(found.unwrap().guid, "mine");
    assert!(db.find_dupe(&record("theirs", "https://a.com", "other", "p2")).is_none());
    let mut store = AddressesStore::new(db);
    let mut up = record("", "https://a.com", "u", "p2");
    up.time_password_changed = 999_999;
    let batch = IncomingChangeset {
        changes: vec![(payload("theirs", PayloadBody::Record(up)), ServerTimestamp(10))],
        timestamp: ServerTimestamp(10),
    };
    let mut telem = EngineIncoming::new();
    store.apply_incoming(&batch, 200, &mut telem).unwrap();
    assert!(store.db.get_local("mine").is_none());
    assert_eq!(store.db.get_by_id("theirs").unwrap().password, "p2");
}

#[test]
fn execute_plan_coalesces_zero_counters() {
    let mut store = synced_store("g1");
    let before = store.db.get_mirror("g1").unwrap();
    let mut plan = UpdatePlan::new();
    let mut up = record("g1", "https://new.com", "u", "p");
    up.times_used = 0;
    up.time_created = 0;
    plan.plan_mirror_update(up, ServerTimestamp(99));
    let scope = store.db.begin_interrupt_scope();
    plan.execute(&mut store.db, &scope, 5).unwrap();
    let m = store.db.get_mirror("g1").unwrap();
    assert_eq!(m.address.hostname, "https://new.com");
    assert_eq!(m.address.times_used, before.address.times_used);
    assert_eq!(m.address.time_created, before.address.time_created);
    assert_eq!(m.server_modified, 99);
}

#[test]
fn collection_name_and_request() {
    let store = AddressesStore::new(AddressesDb::new());
    assert_eq!(store.collection_name(), "passwords");
    let req = store.get_collection_request();
    assert_eq!(req.collection, "passwords");
    assert!(req.full);
    assert_eq!(req.newer_than, ServerTimestamp(0));
}

#[test]
fn telemetry_counts_saturate() {
    let mut t = EngineIncoming::new();
    t.failed(u32::MAX);
    t.failed(3);
    assert_eq!(t.get_failed(), u32::MAX);
    t.applied(2);
    t.reconciled(4);
    assert_eq!(t.get_applied(), 2);
    assert_eq!(t.get_reconciled(), 4);
}

#[test]
fn interrupted_wipe_changes_nothing() {
    let mut store = synced_store("g1");
    store.db.add(record("g2", "https://b.com", "u", "p"), 5, "x").unwrap();
    let handle = store.db.new_interrupt_handle();
    handle.interrupt();
    assert_eq!(store.wipe(10).unwrap_err(), ErrorKind::Interrupted);
    assert!(store.db.get_by_id("g1").is_some());
    assert!(store.db.get_by_id("g2").is_some());
    assert!(!store.db.get_mirror("g1").unwrap().is_overridden);
    assert_eq!(
        store.sync_finished(ServerTimestamp(99), &vec!["g2".to_string()]).unwrap_err(),
        ErrorKind::Interrupted
    );
    assert!(store.db.get_local("g2").is_some());
    assert_eq!(store.db.get_last_sync(), Some(1234));
}

#[test]
fn interrupted_incoming_pass_changes_nothing() {
    let mut store = synced_store("g1");
    store.db.new_interrupt_handle().interrupt();
    let batch = IncomingChangeset {
        changes: vec![(payload("g1", PayloadBody::Tombstone), ServerTimestamp(70))],
        timestamp: ServerTimestamp(70),
    };
    let mut telem = EngineIncoming::new();
    assert_eq!(store.apply_incoming(&batch, 100, &mut telem).unwrap_err(), ErrorKind::Interrupted);
    assert!(store.db.get_mirror("g1").is_some());
}

#[test]
fn stale_interrupt_does_not_stop_a_later_scope() {
    let mut db = AddressesDb::new();
    db.add(record("g1", "https://a.com", "u", "p"), 1, "x").unwrap();
    let handle = db.new_interrupt_handle();
    let early = db.begin_interrupt_scope();
    handle.interrupt();
    assert!(early.was_interrupted());
    let later = db.begin_interrupt_scope();
    assert!(!later.was_interrupted());
    assert!(later.err_if_interrupted().is_ok());
    assert_eq!(early.err_if_interrupted().unwrap_err(), ErrorKind::Interrupted);
    assert_eq!(db.fetch_outgoing(ServerTimestamp(1), &later).unwrap().changes.len(), 1);
    assert_eq!(db.fetch_outgoing(ServerTimestamp(1), &early).unwrap_err(), ErrorKind::Interrupted);
}

#[test]
fn touch_on_tombstone_is_no_such_record() {
    let mut store = synced_store("g1");
    assert!(store.db.delete("g1", 50));
    let before = store.db.get_local("g1").unwrap();
    assert_eq!(store.db.touch("g1", 60).unwrap_err(), ErrorKind::NoSuchRecord("g1".to_string()));
    let after = store.db.get_local("g1").unwrap();
    assert_eq!(after.local_modified, before.local_modified);
    assert_eq!(after.address.times_used, before.address.times_used);
}

#[test]
fn touch_of_mirror_only_record_makes_overlay() {
    let mut store = synced_store("g1");
    store.db.touch("g1", 70).unwrap();
    let l = store.db.get_local("g1").unwrap();
    assert_eq!(l.address.time_last_used, 70);
    assert_eq!(l.sync_status, SyncStatus::New);
    assert!(store.db.get_mirror("g1").unwrap().is_overridden);
}

#[test]
fn wipe_clears_deleted_row_that_holds_a_password() {
    let mut store = synced_store("g1");
    assert!(store.db.delete("g1", 10));
    // an update writes fields into the tombstone, which stays deleted
    store.db.update(record("g1", "https://a.com", "u", "secret"), 20).unwrap();
    assert_eq!(store.db.get_local("g1").unwrap().address.password, "secret");
    store.wipe(30).unwrap();
    let l = store.db.get_local("g1").unwrap();
    assert!(l.is_deleted);
    assert_eq!(l.address.password, "");
    assert_eq!(l.address.hostname, "");
    assert_eq!(l.address.username, "");
    assert_eq!(l.sync_status, SyncStatus::Changed);
    assert_eq!(l.local_modified, 30);
}

#[test]
fn duplicate_names_first_repeated_id() {
    let db = AddressesDb::new();
    let scope = db.begin_interrupt_scope();
    let mut telem = EngineIncoming::new();
    let r = db.fetch_address_data(
        &vec![
            (payload("a", PayloadBody::Tombstone), ServerTimestamp(1)),
            (payload("b", PayloadBody::Tombstone), ServerTimestamp(1)),
            (payload("b", PayloadBody::Tombstone), ServerTimestamp(1)),
            (payload("a", PayloadBody::Tombstone), ServerTimestamp(1)),
        ],
        &mut telem,
        &scope,
    );
    assert_eq!(r.unwrap_err(), ErrorKind::DuplicateGuid("b".to_string()));
}

#[test]
fn empty_inputs_succeed_even_when_interrupted() {
    let mut db = AddressesDb::new();
    let handle = db.new_interrupt_handle();
    let scope = db.begin_interrupt_scope();
    handle.interrupt();
    let mut telem = EngineIncoming::new();
    assert!(db.fetch_address_data(&vec![], &mut telem, &scope).unwrap().is_empty());
    assert!(db.reconcile(vec![], ServerTimestamp(0), 0, &mut telem, &scope).is_ok());
    assert!(db.fetch_outgoing(ServerTimestamp(0), &scope).unwrap().changes.is_empty());
    assert!(db.mark_as_synchronized(&vec![], 5, &scope).is_ok());
    assert!(db.wipe(&scope, 5).is_ok());
}

#[test]
fn interrupted_reconcile_keeps_telemetry() {
    let mut db = AddressesDb::new();
    db.add(record("g1", "https://a.com", "u", "p"), 1, "x").unwrap();
    let scope = db.begin_interrupt_scope();
    let mut telem = EngineIncoming::new();
    let data = db
        .fetch_address_data(
            &vec![(payload("r1", PayloadBody::Record(record("", "https://r.com", "u", "p"))), ServerTimestamp(3))],
            &mut telem,
            &scope,
        )
        .unwrap();
    db.new_interrupt_handle().interrupt();
    assert_eq!(
        db.reconcile(data, ServerTimestamp(3), 4, &mut telem, &scope).unwrap_err(),
        ErrorKind::Interrupted
    );
    assert_eq!(telem, EngineIncoming::new());
}

#[test]
fn metadata_setters_keep_other_fields() {
    let mut store = synced_store("g1");
    store.reset(&StoreSyncAssociation::Connected(CollSyncIds {
        global: "gid".to_string(),
        coll: "cid".to_string(),
    }));
    store.db.set_global_state(&Some("blob".to_string()));
    store.db.set_last_sync(42);
    assert_eq!(store.db.get_last_sync(), Some(42));
    assert_eq!(store.db.get_global_state(), Some("blob".to_string()));
    assert!(matches!(store.get_sync_assoc(), StoreSyncAssociation::Connected(_)));
}

#[test]
fn three_way_merge_keeps_remote_time_created() {
    let mut store = synced_store("g1");
    let shared_created = store.db.get_mirror("g1").unwrap().address.time_created;
    // local changes the password only
    store.db.update(record("g1", "https://a.com", "u", "local-pass"), 500).unwrap();
    // remote changes the creation time only
    let mut remote = store.db.get_mirror("g1").unwrap().address;
    remote.time_created = shared_created + 77;
    let batch = IncomingChangeset {
        changes: vec![(payload("g1", PayloadBody::Record(remote)), ServerTimestamp(2000))],
        timestamp: ServerTimestamp(2000),
    };
    let mut telem = EngineIncoming::new();
    store.apply_incoming(&batch, 1000, &mut telem).unwrap();
    let l = store.db.get_local("g1").unwrap();
    assert_eq!(l.address.time_created, shared_created + 77);
    assert_eq!(l.address.password, "local-pass");
}

#[test]
fn merge_of_both_changed_time_created_prefers_newer_side() {
    let mut base = record("g", "https://a.com", "u", "p");
    base.time_created = 10;
    let mut local = base.clone();
    local.time_created = 20;
    let mut remote = base.clone();
    remote.time_created = 30;
    let mut a = base.clone();
    a.apply_delta(local.delta(&base).merge(remote.delta(&base), true));
    assert_eq!(a.time_created, 30);
    let mut b = base.clone();
    b.apply_delta(local.delta(&base).merge(remote.delta(&base), false));
    assert_eq!(b.time_created, 20);
}

#[test]
fn dupe_search_with_given_target() {
    let mut db = AddressesDb::new();
    let mut mine = record("mine", "https://a.com", "u", "p");
    mine.form_submit_url = Some("https://login.example.com:8443/form".to_string());
    db.add(mine, 1, "x").unwrap();
    let incoming = record("theirs", "https://a.com", "u", "q");
    let hit = db.find_dupe_for_target(&incoming, &Some("login.example.com:8443".to_string()));
    assert_eq!(hit.unwrap().guid, "mine");
    assert!(db.find_dupe_for_target(&incoming, &Some("other.example.com".to_string())).is_none());
    assert!(db.find_dupe_for_target(&incoming, &None).is_none());
}
