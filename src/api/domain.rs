//! Domains: listing, flags and creation.

use vstd::prelude::*;

use crate::api::{
    accessible_domain, domain_gate_error, is_accessible, may_create_domain, may_reassign_owner,
    APIError, APIResult,
};
use crate::api_types::{ListDomainResponse, ListDomainResponseEntry, SetDomainFlagsRequest};
use crate::models::{
    domain_index, domain_named, lemma_domain_rows, owned_domains, user_named, Authorisation,
    MailDomain, MailStore, MailUser, StoreModel,
};

pub mod entries;
pub mod keys;

verus! {

/// The flags of domain `d`, as listed.
pub open spec fn flags_of(d: MailDomain) -> ListDomainResponseEntry {
    ListDomainResponseEntry {
        remote_mx: d.remotemx,
        sender_verify: d.sender_verify,
        grey_listing: d.grey_listing,
        virus_check: d.virus_check,
        spamcheck_threshold: d.spamcheck_threshold,
    }
}

/// A domain as listed: its name and flags.
pub open spec fn listed_domain(d: MailDomain) -> (String, ListDomainResponseEntry) {
    (d.domainname, flags_of(d))
}

fn flags(d: &MailDomain) -> (r: ListDomainResponseEntry)
    ensures
        r == flags_of(*d),
{
    ListDomainResponseEntry {
        remote_mx: crate::models::copy_opt_string(&d.remotemx),
        sender_verify: d.sender_verify,
        grey_listing: d.grey_listing,
        virus_check: d.virus_check,
        spamcheck_threshold: d.spamcheck_threshold,
    }
}

/// The domains that the requesting user owns, with their flags, in the order
/// the store holds them; clients receive them as a map keyed and ordered by
/// name.
pub fn list_domains(db: &MailStore, auth: &Authorisation) -> (r: ListDomainResponse)
    ensures
        r.domains@ == db@.domains.filter(owned_domains(auth@.user)).map_values(
            |d: MailDomain| listed_domain(d),
        ),
{
    let all = MailDomain::by_owner(db, auth.user());
    let mut out: Vec<(String, ListDomainResponseEntry)> = Vec::new();
    let mut i: usize = 0;
    while i < all.len()
        invariant
            i <= all.len(),
            out@ == all@.take(i as int).map_values(|d: MailDomain| listed_domain(d)),
        decreases all.len() - i,
    {
        out.push((all[i].domainname.clone(), flags(&all[i])));
        assert(out@ =~= all@.take(i + 1).map_values(|d: MailDomain| listed_domain(d)));
        i = i + 1;
    }
    assert(all@.take(all.len() as int) =~= all@);
    ListDomainResponse { domains: out }
}

/// Domain `d` with the changes of `body` and `owner` as its owner.
pub open spec fn with_flags(d: MailDomain, body: SetDomainFlagsRequest, owner: i32) -> MailDomain {
    MailDomain {
        owner,
        remotemx: match body.remote_mx {
            Some(m) => if m@.len() == 0 {
                None
            } else {
                Some(m)
            },
            None => d.remotemx,
        },
        sender_verify: match body.sender_verify {
            Some(b) => b,
            None => d.sender_verify,
        },
        grey_listing: match body.grey_listing {
            Some(b) => b,
            None => d.grey_listing,
        },
        virus_check: match body.virus_check {
            Some(b) => b,
            None => d.virus_check,
        },
        spamcheck_threshold: match body.spamcheck_threshold {
            Some(t) => t,
            None => d.spamcheck_threshold,
        },
        ..d
    }
}

/// The owner that `body` gives domain `d` in `v`: the user it names, or the
/// present owner.
pub open spec fn new_owner(v: StoreModel, d: MailDomain, body: SetDomainFlagsRequest, owner: i32) -> bool {
    match body.owner {
        Some(name) => exists|i: int|
            0 <= i < v.users.len() && #[trigger] v.users[i].username@ == name@ && v.users[i].id
                == owner,
        None => owner == d.owner,
    }
}

/// Changes the flags of the domain that `body` names, and lists them as they
/// are now. Changing the owner is for superusers only (`PermissionDenied`
/// naming the domain), and the new owner must exist (`NotFound` naming
/// them); every other flag may be changed by whoever may administer the
/// domain.
pub fn set_domain_flags(db: &mut MailStore, auth: &Authorisation, body: SetDomainFlagsRequest) -> (r:
    APIResult<ListDomainResponseEntry>)
    requires
        old(db).wf(),
    ensures
        final(db).wf(),
        match r {
            Ok(resp) => exists|d: MailDomain, owner: i32|
                {
                    &&& is_accessible(old(db)@, d, body.domain_name@, auth@)
                    &&& (body.owner is Some ==> auth@.superuser)
                    &&& new_owner(old(db)@, d, body, owner)
                    &&& final(db)@ == (StoreModel {
                        domains: old(db)@.domains.update(
                            domain_index(old(db)@, d.id),
                            with_flags(d, body, owner),
                        ),
                        ..old(db)@
                    })
                    &&& resp == flags_of(with_flags(d, body, owner))
                },
            Err(e) => {
                &&& *final(db) == *old(db)
                &&& {
                    ||| domain_gate_error(old(db)@, body.domain_name@, auth@, e)
                    ||| e matches APIError::PermissionDenied(s) && s@ == body.domain_name@
                        && body.owner is Some && !auth@.superuser
                    ||| e matches APIError::NotFound(s) && body.owner matches Some(o) && s@ == o@
                        && auth@.superuser && !user_named(old(db)@, o@)
                }
            },
        },
{
    let mut domain = match accessible_domain(db, body.domain_name.as_str(), auth) {
        Ok(d) => d,
        Err(e) => return Err(e),
    };
    let ghost d0 = domain;
    let owner = match &body.owner {
        Some(o) => {
            if !may_reassign_owner(auth) {
                return Err(APIError::PermissionDenied(body.domain_name.clone()));
            }
            match MailUser::by_name(db, o.as_str()) {
                Some(u) => {
                    proof {
                        let i = choose|i: int| 0 <= i < db@.users.len() && db@.users[i] == u;
                        assert(db@.users[i].username@ == o@);
                    }
                    u.id
                },
                None => return Err(APIError::NotFound(o.clone())),
            }
        },
        None => domain.owner,
    };
    assert(new_owner(db@, d0, body, owner));
    domain.owner = owner;
    match &body.remote_mx {
        Some(m) => {
            if m.as_str().unicode_len() == 0 {
                domain.remotemx = None;
            } else {
                domain.remotemx = Some(m.clone());
            }
        },
        None => {},
    }
    match body.sender_verify {
        Some(b) => domain.sender_verify = b,
        None => {},
    }
    match body.grey_listing {
        Some(b) => domain.grey_listing = b,
        None => {},
    }
    match body.virus_check {
        Some(b) => domain.virus_check = b,
        None => {},
    }
    match body.spamcheck_threshold {
        Some(t) => domain.spamcheck_threshold = t,
        None => {},
    }
    assert(domain == with_flags(d0, body, owner));
    proof {
        let v = db@;
        lemma_domain_rows(v);
        let k = choose|k: int| 0 <= k < v.domains.len() && v.domains[k] == d0;
        assert(v.domains[k].id == domain.id);
        assert(!crate::models::other_domain_named(v, domain.id, domain.domainname@)) by {
            if crate::models::other_domain_named(v, domain.id, domain.domainname@) {
                let i = choose|i: int|
                    0 <= i < v.domains.len() && v.domains[i].id != domain.id
                        && #[trigger] v.domains[i].domainname@ == domain.domainname@;
                assert(v.domains[k].domainname@ == v.domains[i].domainname@);
            }
        }
    }
    match domain.save(db) {
        Ok(_) => Ok(flags(&domain)),
        Err(e) => Err(APIError::DatabaseError(e)),
    }
}

/// A new domain.
#[derive(Clone, Debug)]
pub struct CreateDomainRequest {
    pub domain_name: String,
    pub owner: Option<String>,
    pub remote_mx: Option<String>,
    pub sender_verify: Option<bool>,
    pub grey_listing: Option<bool>,
    pub virus_check: Option<bool>,
    pub spamcheck_threshold: Option<i32>,
}

/// `o`, or `default` where it is `None`.
pub open spec fn or_default<T>(o: Option<T>, default: T) -> T {
    match o {
        Some(x) => x,
        None => default,
    }
}

/// Domain `d` is the one that `body` describes, owned by `owner`: sender
/// verification and virus checking on, greylisting off and a spam threshold
/// of 100 unless `body` says otherwise.
pub open spec fn created_domain(d: MailDomain, body: CreateDomainRequest, owner: i32) -> bool {
    &&& d.owner == owner
    &&& d.domainname@ == body.domain_name@
    &&& match body.remote_mx {
        Some(m) => d.remotemx matches Some(x) && x@ == m@,
        None => d.remotemx is None,
    }
    &&& d.sender_verify == or_default(body.sender_verify, true)
    &&& d.grey_listing == or_default(body.grey_listing, false)
    &&& d.virus_check == or_default(body.virus_check, true)
    &&& d.spamcheck_threshold == or_default(body.spamcheck_threshold, 100i32)
}

/// Creates the domain that `body` describes, owned by the user it names or
/// else by the requesting user, and lists its flags. Only superusers may
/// create domains.
pub fn create_domain(db: &mut MailStore, auth: &Authorisation, body: CreateDomainRequest) -> (r:
    APIResult<ListDomainResponseEntry>)
    requires
        old(db).wf(),
    ensures
        final(db).wf(),
        match r {
            Ok(resp) => exists|d: MailDomain, owner: i32|
                {
                    &&& auth@.superuser
                    &&& match body.owner {
                        Some(o) => exists|i: int|
                            0 <= i < old(db)@.users.len() && #[trigger] old(db)@.users[i].username@
                                == o@ && old(db)@.users[i].id == owner,
                        None => owner == auth@.user,
                    }
                    &&& !domain_named(old(db)@, body.domain_name@)
                    &&& created_domain(d, body, owner)
                    &&& final(db)@ == (StoreModel {
                        domains: old(db)@.domains.push(d),
                        next_id: old(db)@.next_id + 1,
                        ..old(db)@
                    })
                    &&& resp == flags_of(d)
                },
            Err(e) => {
                &&& *final(db) == *old(db)
                &&& {
                    ||| e is PermissionDenied && !auth@.superuser
                    ||| body.owner matches Some(o) && e is NotFound && auth@.superuser && !user_named(
                        old(db)@,
                        o@,
                    )
                    ||| e matches APIError::DatabaseError(x) && auth@.superuser && match body.owner {
                        Some(o) => user_named(old(db)@, o@),
                        None => true,
                    } && (x is UniqueViolation) == domain_named(old(db)@, body.domain_name@) && (x is IdsExhausted)
                        == (!domain_named(old(db)@, body.domain_name@) && old(db)@.next_id
                        == i32::MAX) && (x is UniqueViolation || x is IdsExhausted)
                }
            },
        },
{
    if !may_create_domain(auth) {
        return Err(
            APIError::PermissionDenied(String::from_str("You are not permitted to create domains")),
        );
    }
    let owner = match &body.owner {
        Some(o) => match MailUser::by_name(db, o.as_str()) {
            Some(u) => {
                proof {
                    let i = choose|i: int| 0 <= i < db@.users.len() && db@.users[i] == u;
                    assert(db@.users[i].username@ == o@);
                }
                u.id
            },
            None => {
                let mut msg = String::from_str("Unknown user ");
                msg.append(o.as_str());
                return Err(APIError::NotFound(msg));
            },
        },
        None => auth.user(),
    };
    let remote_mx = match &body.remote_mx {
        Some(m) => Some(m.as_str()),
        None => None,
    };
    let sender_verify = match body.sender_verify {
        Some(b) => b,
        None => true,
    };
    let grey_listing = match body.grey_listing {
        Some(b) => b,
        None => false,
    };
    let virus_check = match body.virus_check {
        Some(b) => b,
        None => true,
    };
    let spamcheck_threshold = match body.spamcheck_threshold {
        Some(t) => t,
        None => 100,
    };
    match MailDomain::create(
        db,
        body.domain_name.as_str(),
        owner,
        remote_mx,
        sender_verify,
        grey_listing,
        virus_check,
        spamcheck_threshold,
    ) {
        Ok(d) => {
            assert(created_domain(d, body, owner));
            Ok(flags(&d))
        },
        Err(e) => Err(APIError::DatabaseError(e)),
    }
}

} // verus!
