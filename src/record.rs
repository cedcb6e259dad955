use vstd::prelude::*;

use crate::error::InvalidAddress;
use crate::table::Keyed;

verus! {

/// Where a local row stands in its upload lifecycle; ordered `New < Changed < Synced`.
#[derive(Debug, Clone, Copy, PartialEq, Eq, Structural)]
pub enum SyncStatus {
    New,
    Changed,
    Synced,
}

impl SyncStatus {
    pub open spec fn rank(self) -> nat {
        match self {
            SyncStatus::New => 0,
            SyncStatus::Changed => 1,
            SyncStatus::Synced => 2,
        }
    }
}

/// The larger of two statuses in the lifecycle order.
pub open spec fn max_status(a: SyncStatus, b: SyncStatus) -> SyncStatus {
    if a.rank() >= b.rank() {
        a
    } else {
        b
    }
}

pub fn status_at_least(s: SyncStatus, floor: SyncStatus) -> (r: SyncStatus)
    ensures
        r == max_status(s, floor),
{
    let a: u8 = match s {
        SyncStatus::New => 0,
        SyncStatus::Changed => 1,
        SyncStatus::Synced => 2,
    };
    let b: u8 = match floor {
        SyncStatus::New => 0,
        SyncStatus::Changed => 1,
        SyncStatus::Synced => 2,
    };
    if a >= b {
        s
    } else {
        floor
    }
}

/// A credential record.
#[derive(Debug, Clone)]
pub struct Address {
    pub guid: String,
    pub hostname: String,
    pub http_realm: Option<String>,
    pub form_submit_url: Option<String>,
    pub username_field: String,
    pub password_field: String,
    pub username: String,
    pub password: String,
    pub times_used: i64,
    pub time_created: i64,
    pub time_last_used: i64,
    pub time_password_changed: i64,
}

/// The value of a record, with each text as its characters.
pub struct AddressView {
    pub guid: Seq<char>,
    pub hostname: Seq<char>,
    pub http_realm: Option<Seq<char>>,
    pub form_submit_url: Option<Seq<char>>,
    pub username_field: Seq<char>,
    pub password_field: Seq<char>,
    pub username: Seq<char>,
    pub password: Seq<char>,
    pub times_used: i64,
    pub time_created: i64,
    pub time_last_used: i64,
    pub time_password_changed: i64,
}

pub open spec fn opt_view(o: Option<String>) -> Option<Seq<char>> {
    match o {
        Some(s) => Some(s@),
        None => None,
    }
}

impl View for Address {
    type V = AddressView;

    open spec fn view(&self) -> AddressView {
        AddressView {
            guid: self.guid@,
            hostname: self.hostname@,
            http_realm: opt_view(self.http_realm),
            form_submit_url: opt_view(self.form_submit_url),
            username_field: self.username_field@,
            password_field: self.password_field@,
            username: self.username@,
            password: self.password@,
            times_used: self.times_used,
            time_created: self.time_created,
            time_last_used: self.time_last_used,
            time_password_changed: self.time_password_changed,
        }
    }
}

/// Why a record value is not acceptable, if it is not.
pub open spec fn invalid_reason(a: AddressView) -> Option<InvalidAddress> {
    if a.hostname.len() == 0 {
        Some(InvalidAddress::EmptyHostname)
    } else if a.password.len() == 0 {
        Some(InvalidAddress::EmptyPassword)
    } else if a.http_realm is Some && a.form_submit_url is Some {
        Some(InvalidAddress::BothTargets)
    } else if a.http_realm is None && a.form_submit_url is None {
        Some(InvalidAddress::NoTarget)
    } else {
        None
    }
}

pub fn clone_opt(o: &Option<String>) -> (r: Option<String>)
    ensures
        r == *o,
{
    match o {
        Some(s) => Some(s.clone()),
        None => None,
    }
}

pub fn opt_eq(a: &Option<String>, b: &Option<String>) -> (r: bool)
    ensures
        r == (opt_view(*a) == opt_view(*b)),
{
    match (a, b) {
        (Some(x), Some(y)) => x.eq(y),
        (None, None) => true,
        _ => false,
    }
}

impl Address {
    pub fn duplicate(&self) -> (r: Address)
        ensures
            r == *self,
    {
        Address {
            guid: self.guid.clone(),
            hostname: self.hostname.clone(),
            http_realm: clone_opt(&self.http_realm),
            form_submit_url: clone_opt(&self.form_submit_url),
            username_field: self.username_field.clone(),
            password_field: self.password_field.clone(),
            username: self.username.clone(),
            password: self.password.clone(),
            times_used: self.times_used,
            time_created: self.time_created,
            time_last_used: self.time_last_used,
            time_password_changed: self.time_password_changed,
        }
    }

    /// Checks the fields that every stored record must have.
    pub fn check_valid(&self) -> (r: Result<(), InvalidAddress>)
        ensures
            r is Ok <==> invalid_reason(self@) is None,
            r matches Err(e) ==> invalid_reason(self@) == Some(e),
    {
        if self.hostname.as_str().unicode_len() == 0 {
            Err(InvalidAddress::EmptyHostname)
        } else if self.password.as_str().unicode_len() == 0 {
            Err(InvalidAddress::EmptyPassword)
        } else if self.http_realm.is_some() && self.form_submit_url.is_some() {
            Err(InvalidAddress::BothTargets)
        } else if self.http_realm.is_none() && self.form_submit_url.is_none() {
            Err(InvalidAddress::NoTarget)
        } else {
            Ok(())
        }
    }
}

/// A row of the local overlay: pending local state of a record.
#[derive(Debug, Clone)]
pub struct LocalAddress {
    pub address: Address,
    pub local_modified: i64,
    pub is_deleted: bool,
    pub sync_status: SyncStatus,
}

/// A row of the mirror: the last state the server confirmed.
#[derive(Debug, Clone)]
pub struct MirrorAddress {
    pub address: Address,
    pub server_modified: i64,
    pub is_overridden: bool,
}

impl Keyed for LocalAddress {
    open spec fn key(&self) -> Seq<char> {
        self.address.guid@
    }
}

impl Keyed for MirrorAddress {
    open spec fn key(&self) -> Seq<char> {
        self.address.guid@
    }
}

impl LocalAddress {
    pub fn duplicate(&self) -> (r: LocalAddress)
        ensures
            r == *self,
    {
        LocalAddress {
            address: self.address.duplicate(),
            local_modified: self.local_modified,
            is_deleted: self.is_deleted,
            sync_status: self.sync_status,
        }
    }
}

impl MirrorAddress {
    pub fn duplicate(&self) -> (r: MirrorAddress)
        ensures
            r == *self,
    {
        MirrorAddress {
            address: self.address.duplicate(),
            server_modified: self.server_modified,
            is_overridden: self.is_overridden,
        }
    }
}

/// The value of a local row.
pub struct LocalView {
    pub address: AddressView,
    pub local_modified: i64,
    pub is_deleted: bool,
    pub sync_status: SyncStatus,
}

/// The value of a mirror row.
pub struct MirrorView {
    pub address: AddressView,
    pub server_modified: i64,
    pub is_overridden: bool,
}

impl View for LocalAddress {
    type V = LocalView;

    open spec fn view(&self) -> LocalView {
        LocalView {
            address: self.address@,
            local_modified: self.local_modified,
            is_deleted: self.is_deleted,
            sync_status: self.sync_status,
        }
    }
}

impl View for MirrorAddress {
    type V = MirrorView;

    open spec fn view(&self) -> MirrorView {
        MirrorView {
            address: self.address@,
            server_modified: self.server_modified,
            is_overridden: self.is_overridden,
        }
    }
}

pub open spec fn local_view(o: Option<LocalAddress>) -> Option<LocalView> {
    match o {
        Some(x) => Some(x@),
        None => None,
    }
}

pub open spec fn mirror_view(o: Option<MirrorAddress>) -> Option<MirrorView> {
    match o {
        Some(x) => Some(x@),
        None => None,
    }
}

} // verus!
