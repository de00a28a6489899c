//! Domain signing keys: listing, activation, creation and removal.

use vstd::prelude::*;

use crate::api::{accessible_domain, domain_gate_error, is_accessible, APIError, APIResult};
use crate::models::{
    dkim_record, key_index, keys_of, lemma_token_key_rows, selector_taken, Authorisation,
    MailDomain, MailDomainKey, MailStore, StoreModel,
};

verus! {

pub struct ListDomainKeyRequest {
    pub mail_domain: String,
}

/// The keys of a domain, each as its selector and its public record: those
/// that sign, and those kept without signing.
pub struct ListDomainKeyResponse {
    pub active: Vec<(String, String)>,
    pub passive: Vec<(String, String)>,
}

pub struct SetDomainKeySigningRequest {
    pub mail_domain: String,
    pub selector: String,
    pub signing: bool,
}

pub struct SetDomainKeySigningResponse {
    pub signing: bool,
}

pub struct CreateDomainKeyRequest {
    pub mail_domain: String,
    pub selector: String,
    pub signing: bool,
}

pub struct CreateDomainKeyResponse {
    pub signing: bool,
    pub key: String,
}

pub struct DeleteDomainKeyRequest {
    pub mail_domain: String,
    pub selector: String,
}

pub struct DeleteDomainKeyResponse {
    pub selector: String,
    pub signing: bool,
}

/// Keys that sign (or, with `signing` false, that do not).
pub open spec fn signing_is(signing: bool) -> spec_fn(MailDomainKey) -> bool {
    |k: MailDomainKey| k.signing == signing
}

/// A key as listed: its selector and its public record.
pub open spec fn key_entry(k: MailDomainKey) -> (Seq<char>, Seq<char>) {
    (k.selector@, dkim_record(k.pubkey@))
}

/// The views of listed pairs.
pub open spec fn pair_views(v: Seq<(String, String)>) -> Seq<(Seq<char>, Seq<char>)> {
    v.map_values(|p: (String, String)| (p.0@, p.1@))
}

fn split_by_signing(keys: &Vec<MailDomainKey>, signing: bool) -> (r: Vec<(String, String)>)
    ensures
        pair_views(r@) == keys@.filter(signing_is(signing)).map_values(
            |k: MailDomainKey| key_entry(k),
        ),
{
    let mut out: Vec<(String, String)> = Vec::new();
    let mut i: usize = 0;
    proof {
        reveal(Seq::filter);
        assert(keys@.take(0) =~= Seq::<MailDomainKey>::empty());
    }
    while i < keys.len()
        invariant
            i <= keys.len(),
            pair_views(out@) == keys@.take(i as int).filter(signing_is(signing)).map_values(
                |k: MailDomainKey| key_entry(k),
            ),
        decreases keys.len() - i,
    {
        proof {
            assert(keys@.take(i + 1) =~= keys@.take(i as int).push(keys@[i as int]));
            keys@.take(i as int).lemma_filter_push(keys@[i as int], signing_is(signing));
        }
        if keys[i].signing == signing {
            let ghost was = out@;
            out.push((keys[i].selector.clone(), keys[i].render_pubkey()));
            assert(pair_views(out@) =~= pair_views(was).push(key_entry(keys@[i as int])));
            assert(keys@.take(i + 1).filter(signing_is(signing)).map_values(
                |k: MailDomainKey| key_entry(k),
            ) =~= keys@.take(i as int).filter(signing_is(signing)).map_values(
                |k: MailDomainKey| key_entry(k),
            ).push(key_entry(keys@[i as int])));
        }
        i = i + 1;
    }
    assert(keys@.take(keys.len() as int) =~= keys@);
    out
}

/// The keys of the domain that `body` names, split by their signing flag,
/// each list in the order the store holds them; clients receive each as a map
/// keyed and ordered by selector.
pub fn list_domain_keys(db: &MailStore, auth: &Authorisation, body: ListDomainKeyRequest) -> (r:
    APIResult<ListDomainKeyResponse>)
    requires
        db.wf(),
    ensures
        match r {
            Ok(resp) => exists|d: MailDomain|
                {
                    &&& is_accessible(db@, d, body.mail_domain@, auth@)
                    &&& pair_views(resp.active@) == db@.keys.filter(keys_of(d.id)).filter(
                        signing_is(true),
                    ).map_values(|k: MailDomainKey| key_entry(k))
                    &&& pair_views(resp.passive@) == db@.keys.filter(keys_of(d.id)).filter(
                        signing_is(false),
                    ).map_values(|k: MailDomainKey| key_entry(k))
                },
            Err(e) => domain_gate_error(db@, body.mail_domain@, auth@, e),
        },
{
    let domain = match accessible_domain(db, body.mail_domain.as_str(), auth) {
        Ok(d) => d,
        Err(e) => return Err(e),
    };
    assert(is_accessible(db@, domain, body.mail_domain@, auth@));
    let keys = MailDomainKey::by_domain(db, domain.id);
    Ok(ListDomainKeyResponse {
        active: split_by_signing(&keys, true),
        passive: split_by_signing(&keys, false),
    })
}

/// The key of domain `d` in `v` with selector `selector`.
pub open spec fn key_of(v: StoreModel, d: MailDomain, selector: Seq<char>, k: MailDomainKey) -> bool {
    v.keys.contains(k) && k.maildomain == d.id && k.selector@ == selector
}

/// Marks the key that `body` names as signing or not. `NotFound` naming the
/// selector where the domain has no such key.
pub fn set_domainkey_signing(
    db: &mut MailStore,
    auth: &Authorisation,
    body: SetDomainKeySigningRequest,
) -> (r: APIResult<SetDomainKeySigningResponse>)
    requires
        old(db).wf(),
    ensures
        final(db).wf(),
        match r {
            Ok(resp) => {
                &&& resp.signing == body.signing
                &&& exists|d: MailDomain, k: MailDomainKey|
                    {
                        &&& is_accessible(old(db)@, d, body.mail_domain@, auth@)
                        &&& key_of(old(db)@, d, body.selector@, k)
                        &&& final(db)@ == (StoreModel {
                            keys: old(db)@.keys.update(
                                key_index(old(db)@, k.id),
                                MailDomainKey { signing: body.signing, ..k },
                            ),
                            ..old(db)@
                        })
                    }
            },
            Err(e) => {
                &&& *final(db) == *old(db)
                &&& {
                    ||| domain_gate_error(old(db)@, body.mail_domain@, auth@, e)
                    ||| e matches APIError::NotFound(s) && s@ == body.selector@ && exists|
                        d: MailDomain,
                    |
                        is_accessible(old(db)@, d, body.mail_domain@, auth@) && !selector_taken(
                            old(db)@,
                            d.id,
                            body.selector@,
                        )
                }
            },
        },
{
    let domain = match accessible_domain(db, body.mail_domain.as_str(), auth) {
        Ok(d) => d,
        Err(e) => return Err(e),
    };
    assert(is_accessible(db@, domain, body.mail_domain@, auth@));
    let mut key = match MailDomainKey::by_domain_and_selector(db, domain.id, body.selector.as_str()) {
        Some(k) => k,
        None => return Err(APIError::NotFound(body.selector.clone())),
    };
    let ghost k0 = key;
    key.signing = body.signing;
    proof {
        let v = db@;
        lemma_token_key_rows(v);
        let i = choose|i: int| 0 <= i < v.keys.len() && v.keys[i] == k0;
        assert(v.keys[i].id == k0.id);
        assert(key_index(v, k0.id) == i);
        assert(MailDomainKey { signing: body.signing, ..k0 } == MailDomainKey {
            selector: key.selector,
            signing: key.signing,
            ..v.keys[i]
        });
        assert(!crate::models::other_key_selector(
            v,
            MailDomainKey { maildomain: v.keys[i].maildomain, ..key },
        )) by {
            if crate::models::other_key_selector(
                v,
                MailDomainKey { maildomain: v.keys[i].maildomain, ..key },
            ) {
                let j = choose|j: int|
                    0 <= j < v.keys.len() && v.keys[j].id != key.id && v.keys[j].maildomain
                        == v.keys[i].maildomain && #[trigger] v.keys[j].selector@ == key.selector@;
                assert(v.keys[i].selector@ == v.keys[j].selector@);
            }
        }
    }
    match key.save(db) {
        Ok(_) => {
            assert(key_of(old(db)@, domain, body.selector@, k0));
            Ok(SetDomainKeySigningResponse { signing: key.signing })
        },
        Err(e) => Err(APIError::DatabaseError(e)),
    }
}

/// Creates a key for the domain that `body` names, with fresh key material,
/// and answers with its public record.
pub fn create_domain_key(db: &mut MailStore, auth: &Authorisation, body: CreateDomainKeyRequest) -> (r:
    APIResult<CreateDomainKeyResponse>)
    requires
        old(db).wf(),
    ensures
        final(db).wf(),
        match r {
            Ok(resp) => exists|d: MailDomain, k: MailDomainKey|
                {
                    &&& is_accessible(old(db)@, d, body.mail_domain@, auth@)
                    &&& !selector_taken(old(db)@, d.id, body.selector@)
                    &&& k.maildomain == d.id
                    &&& k.selector@ == body.selector@
                    &&& k.signing == body.signing
                    &&& final(db)@ == (StoreModel {
                        keys: old(db)@.keys.push(k),
                        next_id: old(db)@.next_id + 1,
                        ..old(db)@
                    })
                    &&& resp.signing == body.signing
                    &&& resp.key@ == dkim_record(k.pubkey@)
                },
            Err(e) => {
                &&& *final(db) == *old(db)
                &&& {
                    ||| domain_gate_error(old(db)@, body.mail_domain@, auth@, e)
                    ||| e matches APIError::DatabaseError(x) && exists|d: MailDomain|
                        is_accessible(old(db)@, d, body.mail_domain@, auth@) && (x is UniqueViolation
                            <==> selector_taken(old(db)@, d.id, body.selector@)) && (x is IdsExhausted
                            ==> old(db)@.next_id == i32::MAX) && (x is UniqueViolation
                            || x is IdsExhausted || x is KeyMaterial)
                }
            },
        },
{
    let domain = match accessible_domain(db, body.mail_domain.as_str(), auth) {
        Ok(d) => d,
        Err(e) => return Err(e),
    };
    assert(is_accessible(db@, domain, body.mail_domain@, auth@));
    match MailDomainKey::create(db, domain.id, body.selector.as_str(), body.signing) {
        Ok(key) => Ok(CreateDomainKeyResponse { signing: key.signing, key: key.render_pubkey() }),
        Err(e) => Err(APIError::DatabaseError(e)),
    }
}

/// Removes the key that `body` names, answering with its selector and the
/// signing flag it had. `NotFound` naming the selector where the domain has
/// no such key.
pub fn delete_domainkey(db: &mut MailStore, auth: &Authorisation, body: DeleteDomainKeyRequest) -> (r:
    APIResult<DeleteDomainKeyResponse>)
    requires
        old(db).wf(),
    ensures
        final(db).wf(),
        match r {
            Ok(resp) => exists|d: MailDomain, k: MailDomainKey|
                {
                    &&& is_accessible(old(db)@, d, body.mail_domain@, auth@)
                    &&& key_of(old(db)@, d, body.selector@, k)
                    &&& final(db)@ == (StoreModel {
                        keys: old(db)@.keys.remove(key_index(old(db)@, k.id)),
                        ..old(db)@
                    })
                    &&& resp.selector == body.selector
                    &&& resp.signing == k.signing
                },
            Err(e) => {
                &&& *final(db) == *old(db)
                &&& {
                    ||| domain_gate_error(old(db)@, body.mail_domain@, auth@, e)
                    ||| e matches APIError::NotFound(s) && s@ == body.selector@ && exists|
                        d: MailDomain,
                    |
                        is_accessible(old(db)@, d, body.mail_domain@, auth@) && !selector_taken(
                            old(db)@,
                            d.id,
                            body.selector@,
                        )
                }
            },
        },
{
    let domain = match accessible_domain(db, body.mail_domain.as_str(), auth) {
        Ok(d) => d,
        Err(e) => return Err(e),
    };
    assert(is_accessible(db@, domain, body.mail_domain@, auth@));
    let key = match MailDomainKey::by_domain_and_selector(db, domain.id, body.selector.as_str()) {
        Some(k) => k,
        None => return Err(APIError::NotFound(body.selector.clone())),
    };
    proof {
        let v = db@;
        let i = choose|i: int| 0 <= i < v.keys.len() && v.keys[i] == key;
        assert(v.keys[i].id == key.id);
    }
    let signing = key.signing;
    let ghost k0 = key;
    match key.delete_self(db) {
        Ok(_) => {
            assert(key_of(old(db)@, domain, body.selector@, k0));
            Ok(DeleteDomainKeyResponse { selector: body.selector, signing })
        },
        Err(e) => Err(APIError::DatabaseError(e)),
    }
}

} // verus!
