use vstd::prelude::*;

use crate::record::{clone_opt, opt_eq, opt_view, Address, AddressView};

verus! {

/// The new value of a field, when it differs from the base.
pub open spec fn changed<T>(new: T, base: T) -> Option<T> {
    if new == base {
        None
    } else {
        Some(new)
    }
}

/// Combines two edits of one field: where both sides changed it, `prefer_b` decides.
pub open spec fn pick<T>(a: Option<T>, b: Option<T>, prefer_b: bool) -> Option<T> {
    if a is Some && b is Some {
        if prefer_b {
            b
        } else {
            a
        }
    } else if a is Some {
        a
    } else {
        b
    }
}

pub open spec fn or_keep<T>(d: Option<T>, v: T) -> T {
    match d {
        Some(x) => x,
        None => v,
    }
}

pub open spec fn opt2_view(o: Option<Option<String>>) -> Option<Option<Seq<char>>> {
    match o {
        Some(x) => Some(opt_view(x)),
        None => None,
    }
}

/// The fields of a record that an edit changed, each with its new value.
pub struct AddressDelta {
    pub hostname: Option<String>,
    pub http_realm: Option<Option<String>>,
    pub form_submit_url: Option<Option<String>>,
    pub username_field: Option<String>,
    pub password_field: Option<String>,
    pub username: Option<String>,
    pub password: Option<String>,
    pub times_used: Option<i64>,
    pub time_created: Option<i64>,
    pub time_last_used: Option<i64>,
    pub time_password_changed: Option<i64>,
}

pub struct DeltaView {
    pub hostname: Option<Seq<char>>,
    pub http_realm: Option<Option<Seq<char>>>,
    pub form_submit_url: Option<Option<Seq<char>>>,
    pub username_field: Option<Seq<char>>,
    pub password_field: Option<Seq<char>>,
    pub username: Option<Seq<char>>,
    pub password: Option<Seq<char>>,
    pub times_used: Option<i64>,
    pub time_created: Option<i64>,
    pub time_last_used: Option<i64>,
    pub time_password_changed: Option<i64>,
}

impl View for AddressDelta {
    type V = DeltaView;

    open spec fn view(&self) -> DeltaView {
        DeltaView {
            hostname: opt_view(self.hostname),
            http_realm: opt2_view(self.http_realm),
            form_submit_url: opt2_view(self.form_submit_url),
            username_field: opt_view(self.username_field),
            password_field: opt_view(self.password_field),
            username: opt_view(self.username),
            password: opt_view(self.password),
            times_used: self.times_used,
            time_created: self.time_created,
            time_last_used: self.time_last_used,
            time_password_changed: self.time_password_changed,
        }
    }
}

/// The edit that turns `base` into `a`, field by field.
pub open spec fn delta_of(a: AddressView, base: AddressView) -> DeltaView {
    DeltaView {
        hostname: changed(a.hostname, base.hostname),
        http_realm: changed(a.http_realm, base.http_realm),
        form_submit_url: changed(a.form_submit_url, base.form_submit_url),
        username_field: changed(a.username_field, base.username_field),
        password_field: changed(a.password_field, base.password_field),
        username: changed(a.username, base.username),
        password: changed(a.password, base.password),
        times_used: changed(a.times_used, base.times_used),
        time_created: changed(a.time_created, base.time_created),
        time_last_used: changed(a.time_last_used, base.time_last_used),
        time_password_changed: changed(a.time_password_changed, base.time_password_changed),
    }
}

/// Two edits combined field by field; a field that both change takes `b`'s value iff `prefer_b`.
pub open spec fn merge_of(a: DeltaView, b: DeltaView, prefer_b: bool) -> DeltaView {
    DeltaView {
        hostname: pick(a.hostname, b.hostname, prefer_b),
        http_realm: pick(a.http_realm, b.http_realm, prefer_b),
        form_submit_url: pick(a.form_submit_url, b.form_submit_url, prefer_b),
        username_field: pick(a.username_field, b.username_field, prefer_b),
        password_field: pick(a.password_field, b.password_field, prefer_b),
        username: pick(a.username, b.username, prefer_b),
        password: pick(a.password, b.password, prefer_b),
        times_used: pick(a.times_used, b.times_used, prefer_b),
        time_created: pick(a.time_created, b.time_created, prefer_b),
        time_last_used: pick(a.time_last_used, b.time_last_used, prefer_b),
        time_password_changed: pick(a.time_password_changed, b.time_password_changed, prefer_b),
    }
}

/// `a` with the changed fields of `d` written over it.
pub open spec fn apply_of(a: AddressView, d: DeltaView) -> AddressView {
    AddressView {
        guid: a.guid,
        hostname: or_keep(d.hostname, a.hostname),
        http_realm: or_keep(d.http_realm, a.http_realm),
        form_submit_url: or_keep(d.form_submit_url, a.form_submit_url),
        username_field: or_keep(d.username_field, a.username_field),
        password_field: or_keep(d.password_field, a.password_field),
        username: or_keep(d.username, a.username),
        password: or_keep(d.password, a.password),
        times_used: or_keep(d.times_used, a.times_used),
        time_created: or_keep(d.time_created, a.time_created),
        time_last_used: or_keep(d.time_last_used, a.time_last_used),
        time_password_changed: or_keep(d.time_password_changed, a.time_password_changed),
    }
}

/// The three-way merge of a local and a remote edit of the common ancestor `shared`.
pub open spec fn three_way_of(
    local: AddressView,
    shared: AddressView,
    remote: AddressView,
    prefer_remote: bool,
) -> AddressView {
    apply_of(shared, merge_of(delta_of(local, shared), delta_of(remote, shared), prefer_remote))
}

fn diff_text(new: &String, base: &String) -> (r: Option<String>)
    ensures
        opt_view(r) == changed(new@, base@),
{
    if new.eq(base) {
        None
    } else {
        Some(new.clone())
    }
}

fn diff_opt_text(new: &Option<String>, base: &Option<String>) -> (r: Option<Option<String>>)
    ensures
        opt2_view(r) == changed(opt_view(*new), opt_view(*base)),
{
    if opt_eq(new, base) {
        None
    } else {
        Some(clone_opt(new))
    }
}

fn diff_int(new: i64, base: i64) -> (r: Option<i64>)
    ensures
        r == changed(new, base),
{
    if new == base {
        None
    } else {
        Some(new)
    }
}

fn pick_edit<T>(a: Option<T>, b: Option<T>, prefer_b: bool) -> (r: Option<T>)
    ensures
        r == pick(a, b, prefer_b),
{
    match (a, b) {
        (Some(x), Some(y)) => if prefer_b {
            Some(y)
        } else {
            Some(x)
        },
        (Some(x), None) => Some(x),
        (None, b) => b,
    }
}

impl Address {
    /// The fields in which `self` differs from `base`.
    pub fn delta(&self, base: &Address) -> (r: AddressDelta)
        ensures
            r@ == delta_of(self@, base@),
    {
        AddressDelta {
            hostname: diff_text(&self.hostname, &base.hostname),
            http_realm: diff_opt_text(&self.http_realm, &base.http_realm),
            form_submit_url: diff_opt_text(&self.form_submit_url, &base.form_submit_url),
            username_field: diff_text(&self.username_field, &base.username_field),
            password_field: diff_text(&self.password_field, &base.password_field),
            username: diff_text(&self.username, &base.username),
            password: diff_text(&self.password, &base.password),
            times_used: diff_int(self.times_used, base.times_used),
            time_created: diff_int(self.time_created, base.time_created),
            time_last_used: diff_int(self.time_last_used, base.time_last_used),
            time_password_changed: diff_int(self.time_password_changed, base.time_password_changed),
        }
    }

    /// Writes the changed fields of `d` over `self`.
    pub fn apply_delta(&mut self, d: AddressDelta)
        ensures
            final(self)@ == apply_of(old(self)@, d@),
    {
        if let Some(v) = d.hostname {
            self.hostname = v;
        }
        if let Some(v) = d.http_realm {
            self.http_realm = v;
        }
        if let Some(v) = d.form_submit_url {
            self.form_submit_url = v;
        }
        if let Some(v) = d.username_field {
            self.username_field = v;
        }
        if let Some(v) = d.password_field {
            self.password_field = v;
        }
        if let Some(v) = d.username {
            self.username = v;
        }
        if let Some(v) = d.password {
            self.password = v;
        }
        if let Some(v) = d.times_used {
            self.times_used = v;
        }
        if let Some(v) = d.time_created {
            self.time_created = v;
        }
        if let Some(v) = d.time_last_used {
            self.time_last_used = v;
        }
        if let Some(v) = d.time_password_changed {
            self.time_password_changed = v;
        }
    }
}

impl AddressDelta {
    /// Combines two edits; where both change a field, `other` wins iff `prefer_other`.
    pub fn merge(self, other: AddressDelta, prefer_other: bool) -> (r: AddressDelta)
        ensures
            r@ == merge_of(self@, other@, prefer_other),
    {
        AddressDelta {
            hostname: pick_edit(self.hostname, other.hostname, prefer_other),
            http_realm: pick_edit(self.http_realm, other.http_realm, prefer_other),
            form_submit_url: pick_edit(self.form_submit_url, other.form_submit_url, prefer_other),
            username_field: pick_edit(self.username_field, other.username_field, prefer_other),
            password_field: pick_edit(self.password_field, other.password_field, prefer_other),
            username: pick_edit(self.username, other.username, prefer_other),
            password: pick_edit(self.password, other.password, prefer_other),
            times_used: pick_edit(self.times_used, other.times_used, prefer_other),
            time_created: pick_edit(self.time_created, other.time_created, prefer_other),
            time_last_used: pick_edit(self.time_last_used, other.time_last_used, prefer_other),
            time_password_changed: pick_edit(
                self.time_password_changed,
                other.time_password_changed,
                prefer_other,
            ),
        }
    }
}

/// A field of the merge `m` of edits `l` and `r` of `s`: what one side changed is kept
/// wherever the other side left it as it was, and where both sides changed it the
/// preferred side's value wins.
pub open spec fn keeps_one_sided_edit<T>(l: T, s: T, r: T, m: T, prefer_r: bool) -> bool {
    &&& (l == s ==> m == r)
    &&& (r == s ==> m == l)
    &&& (l != s && r != s ==> m == if prefer_r {
        r
    } else {
        l
    })
}

/// In a three-way merge, a field that only one side edited takes that side's value, so
/// edits of disjoint fields are all kept and none reverts to the ancestor; a field that
/// both sides edited takes the preferred side's value.
pub proof fn lemma_three_way_keeps_disjoint_edits(
    local: AddressView,
    shared: AddressView,
    remote: AddressView,
    prefer_remote: bool,
)
    ensures
        ({
            let m = three_way_of(local, shared, remote, prefer_remote);
            &&& m.guid == shared.guid
            &&& keeps_one_sided_edit(
                local.hostname,
                shared.hostname,
                remote.hostname,
                m.hostname,
                prefer_remote,
            )
            &&& keeps_one_sided_edit(
                local.http_realm,
                shared.http_realm,
                remote.http_realm,
                m.http_realm, prefer_remote,
            )
            &&& keeps_one_sided_edit(
                local.form_submit_url,
                shared.form_submit_url,
                remote.form_submit_url,
                m.form_submit_url, prefer_remote,
            )
            &&& keeps_one_sided_edit(
                local.username_field,
                shared.username_field,
                remote.username_field,
                m.username_field, prefer_remote,
            )
            &&& keeps_one_sided_edit(
                local.password_field,
                shared.password_field,
                remote.password_field,
                m.password_field, prefer_remote,
            )
            &&& keeps_one_sided_edit(local.username, shared.username, remote.username, m.username, prefer_remote)
            &&& keeps_one_sided_edit(local.password, shared.password, remote.password, m.password, prefer_remote)
            &&& keeps_one_sided_edit(
                local.times_used,
                shared.times_used,
                remote.times_used,
                m.times_used, prefer_remote,
            )
            &&& keeps_one_sided_edit(
                local.time_created,
                shared.time_created,
                remote.time_created,
                m.time_created, prefer_remote,
            )
            &&& keeps_one_sided_edit(
                local.time_last_used,
                shared.time_last_used,
                remote.time_last_used,
                m.time_last_used, prefer_remote,
            )
            &&& keeps_one_sided_edit(
                local.time_password_changed,
                shared.time_password_changed,
                remote.time_password_changed,
                m.time_password_changed, prefer_remote,
            )
        }),
{
}

} // verus!
