//! Who may use a domain, whether it is enforced, and whether it redacts.
use vstd::prelude::*;

use crate::store::{DomainRecord, DomainRecordModel, Permission, PermissionModel, Store, StoreModel};
use crate::table::{any, find_row, first_match, rewrite, some_match};
use crate::text::{opt_str, same};
use crate::types::lemma_models_push;

verus! {

/// The domain of a name.
pub open spec fn domain_named(s: StoreModel, name: Seq<char>) -> Option<DomainRecordModel> {
    first_match(s.domains, |d: DomainRecordModel| d.name == name)
}

/// Whether a domain is enforced. A domain that is not registered is not.
pub open spec fn is_enforced(s: StoreModel, name: Seq<char>) -> bool {
    match domain_named(s, name) {
        Some(d) => d.enforced,
        None => false,
    }
}

/// Whether a domain redacts what is stored in it. A domain that is not registered does.
pub open spec fn redacts(s: StoreModel, name: Seq<char>) -> bool {
    match domain_named(s, name) {
        Some(d) => d.redact_enabled,
        None => true,
    }
}

/// Whether `p` is the permission of an identity for a domain.
pub open spec fn is_permission(p: PermissionModel, identity: Seq<char>, domain: Seq<char>) -> bool {
    p.identity == identity && p.domain == domain
}

/// Whether an identity may use a domain. A domain without any permission is open to
/// all; otherwise only those may use it whose permission says so. A caller without an
/// identity counts as `default`.
pub open spec fn may_use(s: StoreModel, identity: Option<Seq<char>>, domain: Seq<char>) -> bool {
    let id = match identity {
        Some(i) => i,
        None => "default"@,
    };
    if !some_match(s.permissions, |p: PermissionModel| p.domain == domain) {
        true
    } else {
        match first_match(s.permissions, |p: PermissionModel| is_permission(p, id, domain)) {
            Some(p) => p.allowed,
            None => false,
        }
    }
}

/// The store after a permission was set: one for each identity and domain.
pub open spec fn permitted(
    s: StoreModel,
    identity: Seq<char>,
    domain: Seq<char>,
    allowed: bool,
) -> StoreModel {
    StoreModel {
        permissions: if some_match(
            s.permissions,
            |p: PermissionModel| is_permission(p, identity, domain),
        ) {
            s.permissions.map_values(
                |p: PermissionModel|
                    if is_permission(p, identity, domain) {
                        PermissionModel { allowed, ..p }
                    } else {
                        p
                    },
            )
        } else {
            s.permissions.push(PermissionModel { identity, domain, allowed })
        },
        ..s
    }
}

impl Store {
    /// The position of the domain of a name.
    pub(crate) fn domain_at(&self, name: &str) -> (r: Option<usize>)
        ensures
            match r {
                Some(i) => i < self.domains@.len() && domain_named(self@, name@) == Some(
                    self.domains@[i as int]@,
                ) && self.domains@[i as int]@.name == name@,
                None => domain_named(self@, name@) is None,
            },
    {
        let is = |d: &DomainRecord| -> (b: bool)
            ensures
                b == (d@.name == name@),
            { same(d.name.as_str(), name) };
        find_row(&self.domains, is, Ghost(|d: DomainRecordModel| d.name == name@))
    }

    /// Whether a domain is enforced. A domain that is not registered is not.
    pub fn domain_enforced(&self, name: &str) -> (r: bool)
        ensures
            r == is_enforced(self@, name@),
    {
        match self.domain_at(name) {
            Some(i) => self.domains[i].enforced,
            None => false,
        }
    }

    /// Whether a domain redacts what is stored in it. A domain that is not registered
    /// does: here the safe answer is yes.
    pub fn domain_redact_enabled(&self, name: &str) -> (r: bool)
        ensures
            r == redacts(self@, name@),
    {
        match self.domain_at(name) {
            Some(i) => self.domains[i].redact_enabled,
            None => true,
        }
    }

    /// Whether an identity may use a domain.
    pub fn domain_allowed(&self, identity: Option<&str>, domain: &str) -> (r: bool)
        ensures
            r == may_use(self@, opt_str(identity), domain@),
    {
        let on = |p: &Permission| -> (b: bool)
            ensures
                b == (p@.domain == domain@),
            { same(p.domain.as_str(), domain) };
        let configured: bool = any(
            &self.permissions,
            on,
            Ghost(|p: PermissionModel| p.domain == domain@),
        );
        if !configured {
            return true;
        }
        let id: &str = match identity {
            Some(i) => i,
            None => "default",
        };
        let is = |p: &Permission| -> (b: bool)
            ensures
                b == is_permission(p@, id@, domain@),
            { same(p.identity.as_str(), id) && same(p.domain.as_str(), domain) };
        let found: Option<usize> = find_row(
            &self.permissions,
            is,
            Ghost(|p: PermissionModel| is_permission(p, id@, domain@)),
        );
        match found {
            Some(i) => self.permissions[i].allowed,
            None => false,
        }
    }

    /// Sets whether an identity may use a domain.
    pub fn set_domain_permission(&mut self, identity: &str, domain: &str, allowed: bool)
        ensures
            final(self)@ == permitted(old(self)@, identity@, domain@, allowed),
    {
        broadcast use lemma_models_push;

        let is = |p: &Permission| -> (b: bool)
            ensures
                b == is_permission(p@, identity@, domain@),
            { same(p.identity.as_str(), identity) && same(p.domain.as_str(), domain) };
        let there: bool = any(
            &self.permissions,
            is,
            Ghost(|p: PermissionModel| is_permission(p, identity@, domain@)),
        );
        if there {
            let set = |p: Permission| -> (q: Permission)
                ensures
                    q@ == (if is_permission(p@, identity@, domain@) {
                        PermissionModel { allowed, ..p@ }
                    } else {
                        p@
                    }),
                {
                    let mut q: Permission = p;
                    if same(q.identity.as_str(), identity) && same(q.domain.as_str(), domain) {
                        q.allowed = allowed;
                    }
                    q
                };
            let ghost set_model = |p: PermissionModel|
                if is_permission(p, identity@, domain@) {
                    PermissionModel { allowed, ..p }
                } else {
                    p
                };
            rewrite(&mut self.permissions, set, Ghost(set_model));
        } else {
            let row: Permission = Permission {
                identity: identity.to_owned(),
                domain: domain.to_owned(),
                allowed,
            };
            self.permissions.push(row);
        }
        assert(self@ =~= permitted(old(self)@, identity@, domain@, allowed));
    }
}

/// A permission that was set is the one that counts.
pub proof fn permission_takes_effect(
    s: StoreModel,
    identity: Seq<char>,
    domain: Seq<char>,
    allowed: bool,
)
    ensures
        may_use(permitted(s, identity, domain, allowed), Some(identity), domain) == allowed,
{
    let t = permitted(s, identity, domain, allowed);
    let is = |p: PermissionModel| is_permission(p, identity, domain);
    let on = |p: PermissionModel| p.domain == domain;
    crate::table::lemma_first_match(t.permissions, is);
    let set = |p: PermissionModel|
        if is_permission(p, identity, domain) {
            PermissionModel { allowed, ..p }
        } else {
            p
        };
    if some_match(s.permissions, is) {
        let i = choose|i: int| 0 <= i < s.permissions.len() && is(#[trigger] s.permissions[i]);
        assert(t.permissions[i] == set(s.permissions[i]));
        assert(is(t.permissions[i]));
        assert(on(t.permissions[i]));
        let x = first_match(t.permissions, is)->0;
        let j = choose|j: int| 0 <= j < t.permissions.len() && t.permissions[j] == x;
        assert(t.permissions[j] == set(s.permissions[j]));
    } else {
        let n = s.permissions.len() as int;
        assert(is(t.permissions[n]));
        assert(on(t.permissions[n]));
        let x = first_match(t.permissions, is)->0;
        let j = choose|j: int| 0 <= j < t.permissions.len() && t.permissions[j] == x;
        if j < n {
            assert(t.permissions[j] == s.permissions[j]);
            assert(is(s.permissions[j]));
        }
    }
}

/// Where a domain has a permission at all, an identity without one may not use it.
pub proof fn unlisted_identity_is_refused(s: StoreModel, identity: Seq<char>, domain: Seq<char>)
    requires
        some_match(s.permissions, |p: PermissionModel| p.domain == domain),
        !some_match(s.permissions, |p: PermissionModel| is_permission(p, identity, domain)),
    ensures
        !may_use(s, Some(identity), domain),
{
    crate::table::lemma_first_match(
        s.permissions,
        |p: PermissionModel| is_permission(p, identity, domain),
    );
}

} // verus!
