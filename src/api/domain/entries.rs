//! Domain entries: logins, accounts, aliases, lists, bouncers and blackholes.

use vstd::prelude::*;

use crate::api::{
    accessible_domain, accessible_entry, domain_gate_error, entry_gate_error, full_name,
    is_accessible, make_full_name, APIError, APIResult,
};
use crate::expansion::{
    add_member, added, has_real_member, is_clean, members, names_a_member, remove_member, removed,
    ListEditError,
};
use crate::models::util::{encodes, encoding_may_fail};
use crate::models::{
    entry_index, entry_named, in_domain, kind_of, lemma_entry_rows, may_access_spec,
    payload_text, Authorisation, DbError, EntryPayload, MailDomain, MailEntry, MailEntryKind,
    MailStore, StoreModel,
};

verus! {

/// An entry as it is shown: its kind, with the member list of an alias or
/// list and the reason of a bouncer or blackhole. Secrets are never shown.
pub enum EntryListResponseItem {
    Login,
    Account,
    Alias { expansion: String },
    Blackhole { reason: String },
    Bouncer { reason: String },
    List { members: String },
}

/// The entries of a domain, each with its name.
pub struct EntryListResponse {
    pub entries: Vec<(String, EntryListResponseItem)>,
}

pub struct DeletionResponse {
    pub deleted: String,
}

/// A new entry: its kind, its name, and what that kind carries.
pub enum CreateEntryRequest {
    Login { name: String, password: String },
    Account { name: String, password: String },
    Alias { name: String, expansion: String },
    Bouncer { name: String, reason: String },
    Blackhole { name: String, reason: String },
    List { name: String, members: String },
}

pub struct CreationResponse {
    pub created: String,
}

/// A change to an entry.
pub enum EditEntryRequest {
    /// A new secret for a login or account.
    SetPassword { password: String },
    /// A new member list for an alias or list.
    Expansion { expansion: String },
    /// One more member for an alias or list.
    AddExpansion { add: String },
    /// One member less for an alias or list.
    RemoveExpansion { remove: String },
    /// A new reason for a bouncer or blackhole.
    ChangeReason { reason: String },
}

pub struct EditEntryResponse {
    pub updated: String,
}

/// How an entry with payload `p` is shown.
pub open spec fn shown(p: EntryPayload) -> EntryListResponseItem {
    match p {
        EntryPayload::Login { .. } => EntryListResponseItem::Login,
        EntryPayload::Account { .. } => EntryListResponseItem::Account,
        EntryPayload::Alias { expansion } => EntryListResponseItem::Alias { expansion },
        EntryPayload::Bouncer { reason } => EntryListResponseItem::Bouncer { reason },
        EntryPayload::Blackhole { reason } => EntryListResponseItem::Blackhole { reason },
        EntryPayload::List { members } => EntryListResponseItem::List { members },
    }
}

/// An entry as listed: its name and how it is shown.
pub open spec fn listed(e: MailEntry) -> (String, EntryListResponseItem) {
    (e.name, shown(e.payload))
}

fn show(p: &EntryPayload) -> (r: EntryListResponseItem)
    ensures
        r == shown(*p),
{
    match p {
        EntryPayload::Login { .. } => EntryListResponseItem::Login,
        EntryPayload::Account { .. } => EntryListResponseItem::Account,
        EntryPayload::Alias { expansion } => EntryListResponseItem::Alias {
            expansion: expansion.clone(),
        },
        EntryPayload::Bouncer { reason } => EntryListResponseItem::Bouncer { reason: reason.clone() },
        EntryPayload::Blackhole { reason } => EntryListResponseItem::Blackhole {
            reason: reason.clone(),
        },
        EntryPayload::List { members } => EntryListResponseItem::List { members: members.clone() },
    }
}

/// The entries of the domain called `domain_name`.
pub fn list_entries(db: &MailStore, domain_name: &str, auth: &Authorisation) -> (r: APIResult<
    EntryListResponse,
>)
    requires
        db.wf(),
    ensures
        match r {
            Ok(resp) => exists|d: MailDomain|
                is_accessible(db@, d, domain_name@, auth@) && resp.entries@ == db@.entries.filter(
                    in_domain(d.id),
                ).map_values(|e: MailEntry| listed(e)),
            Err(e) => domain_gate_error(db@, domain_name@, auth@, e),
        },
{
    let domain = match accessible_domain(db, domain_name, auth) {
        Ok(d) => d,
        Err(e) => return Err(e),
    };
    assert(is_accessible(db@, domain, domain_name@, auth@));
    let all = domain.entries(db);
    let mut out: Vec<(String, EntryListResponseItem)> = Vec::new();
    let mut i: usize = 0;
    while i < all.len()
        invariant
            i <= all.len(),
            out@ == all@.take(i as int).map_values(|e: MailEntry| listed(e)),
        decreases all.len() - i,
    {
        out.push((all[i].name.clone(), show(&all[i].payload)));
        assert(out@ =~= all@.take(i + 1).map_values(|e: MailEntry| listed(e)));
        i = i + 1;
    }
    assert(all@.take(all.len() as int) =~= all@);
    Ok(EntryListResponse { entries: out })
}

/// The entry called `entry` of the domain called `domain_name`, as shown.
pub fn get_entry(db: &MailStore, domain_name: &str, entry: &str, auth: &Authorisation) -> (r:
    APIResult<EntryListResponseItem>)
    requires
        db.wf(),
    ensures
        match r {
            Ok(item) => exists|d: MailDomain, e: MailEntry|
                is_accessible(db@, d, domain_name@, auth@) && db@.entries.contains(e)
                    && e.maildomain == d.id && e.name@ == entry@ && item == shown(e.payload),
            Err(e) => entry_gate_error(db@, domain_name@, entry@, auth@, e),
        },
{
    match accessible_entry(db, domain_name, entry, auth) {
        Ok((d, e)) => {
            assert(is_accessible(db@, d, domain_name@, auth@));
            Ok(show(&e.payload))
        },
        Err(e) => Err(e),
    }
}

/// Removes the entry called `entry` of the domain called `domain_name`, and
/// names it.
pub fn delete_entry(db: &mut MailStore, domain_name: &str, entry: &str, auth: &Authorisation) -> (r:
    APIResult<DeletionResponse>)
    requires
        old(db).wf(),
    ensures
        final(db).wf(),
        match r {
            Ok(resp) => {
                &&& resp.deleted@ == full_name(entry@, domain_name@)
                &&& exists|d: MailDomain, e: MailEntry|
                    is_accessible(old(db)@, d, domain_name@, auth@) && old(db)@.entries.contains(e)
                        && e.maildomain == d.id && e.name@ == entry@ && final(db)@ == (StoreModel {
                        entries: old(db)@.entries.remove(entry_index(old(db)@, e.id)),
                        ..old(db)@
                    })
            },
            Err(e) => *final(db) == *old(db) && entry_gate_error(
                old(db)@,
                domain_name@,
                entry@,
                auth@,
                e,
            ),
        },
{
    let (d, e) = match accessible_entry(db, domain_name, entry, auth) {
        Ok(found) => found,
        Err(e) => return Err(e),
    };
    assert(is_accessible(db@, d, domain_name@, auth@));
    let full = make_full_name(entry, domain_name);
    proof {
        let k = choose|k: int| 0 <= k < db@.entries.len() && db@.entries[k] == e;
        assert(db@.entries[k].id == e.id);
    }
    match e.delete(db) {
        Ok(_) => Ok(DeletionResponse { deleted: full }),
        Err(err) => Err(APIError::DatabaseError(err)),
    }
}

impl CreateEntryRequest {
    /// The name of the entry to create.
    pub fn name(&self) -> (r: &str)
        ensures
            r@ == request_name(*self)@,
    {
        match self {
            Self::Login { name, .. } => name.as_str(),
            Self::Account { name, .. } => name.as_str(),
            Self::Alias { name, .. } => name.as_str(),
            Self::Bouncer { name, .. } => name.as_str(),
            Self::Blackhole { name, .. } => name.as_str(),
            Self::List { name, .. } => name.as_str(),
        }
    }
}

/// The name of the entry that `req` creates.
pub open spec fn request_name(req: CreateEntryRequest) -> String {
    match req {
        CreateEntryRequest::Login { name, .. } => name,
        CreateEntryRequest::Account { name, .. } => name,
        CreateEntryRequest::Alias { name, .. } => name,
        CreateEntryRequest::Bouncer { name, .. } => name,
        CreateEntryRequest::Blackhole { name, .. } => name,
        CreateEntryRequest::List { name, .. } => name,
    }
}

/// The kind of entry that `req` creates.
pub open spec fn request_kind(req: CreateEntryRequest) -> MailEntryKind {
    match req {
        CreateEntryRequest::Login { .. } => MailEntryKind::Login,
        CreateEntryRequest::Account { .. } => MailEntryKind::Account,
        CreateEntryRequest::Alias { .. } => MailEntryKind::Alias,
        CreateEntryRequest::Bouncer { .. } => MailEntryKind::Bouncer,
        CreateEntryRequest::Blackhole { .. } => MailEntryKind::Blackhole,
        CreateEntryRequest::List { .. } => MailEntryKind::List,
    }
}

/// What `req` asks to store: the secret (before encoding), the member list
/// or the reason.
pub open spec fn request_text(req: CreateEntryRequest) -> String {
    match req {
        CreateEntryRequest::Login { password, .. } => password,
        CreateEntryRequest::Account { password, .. } => password,
        CreateEntryRequest::Alias { expansion, .. } => expansion,
        CreateEntryRequest::Bouncer { reason, .. } => reason,
        CreateEntryRequest::Blackhole { reason, .. } => reason,
        CreateEntryRequest::List { members, .. } => members,
    }
}

/// Whether entries of `kind` carry a secret.
pub open spec fn has_secret(kind: MailEntryKind) -> bool {
    kind == MailEntryKind::Login || kind == MailEntryKind::Account
}

/// Whether entries of `kind` carry a member list.
pub open spec fn has_members(kind: MailEntryKind) -> bool {
    kind == MailEntryKind::Alias || kind == MailEntryKind::List
}

/// Whether entries of `kind` carry a reason.
pub open spec fn has_reason(kind: MailEntryKind) -> bool {
    kind == MailEntryKind::Bouncer || kind == MailEntryKind::Blackhole
}

/// Entry `e` of domain `d`, the domain called `name` that `auth` may
/// administer, is the one that `body` describes, and it was added to `v` to
/// give `w`.
pub open spec fn entry_created(
    v: StoreModel,
    w: StoreModel,
    d: MailDomain,
    e: MailEntry,
    body: CreateEntryRequest,
    name: Seq<char>,
    auth: crate::models::util::AuthView,
) -> bool {
    &&& is_accessible(v, d, name, auth)
    &&& !entry_named(v, d.id, request_name(body)@)
    &&& e.maildomain == d.id
    &&& e.name@ == request_name(body)@
    &&& kind_of(e.payload) == request_kind(body)
    &&& if has_secret(request_kind(body)) {
        encodes(request_text(body)@, payload_text(e.payload)@)
    } else {
        payload_text(e.payload)@ == request_text(body)@
    }
    &&& w == StoreModel { entries: v.entries.push(e), next_id: v.next_id + 1, ..v }
}

/// Why the store refused the entry that `body` describes in domain `d` of
/// `v`: its name is taken, or no ids are left, or (for a login or account)
/// its secret could not be encoded.
pub open spec fn entry_refused(v: StoreModel, d: MailDomain, body: CreateEntryRequest, x: DbError) -> bool {
    let name = request_name(body)@;
    &&& (x is UniqueViolation) == entry_named(v, d.id, name)
    &&& (x is IdsExhausted) == (!entry_named(v, d.id, name) && v.next_id == i32::MAX)
    &&& (x is CredentialEncoding) ==> has_secret(request_kind(body)) && encoding_may_fail(
        request_text(body)@,
    )
    &&& (x is UniqueViolation || x is IdsExhausted || x is CredentialEncoding)
    &&& has_members(request_kind(body)) ==> has_real_member(request_text(body)@)
}

/// Creates the entry that `body` describes in the domain called
/// `domain_name`, and names it. An alias or list needs a member list that is
/// naming a member (`AliasWouldBecomeEmpty` naming the entry); a taken name is the
/// store's `UniqueViolation`.
pub fn create_entry(
    db: &mut MailStore,
    domain_name: &str,
    auth: &Authorisation,
    body: CreateEntryRequest,
) -> (r: APIResult<CreationResponse>)
    requires
        old(db).wf(),
    ensures
        final(db).wf(),
        match r {
            Ok(resp) => {
                &&& resp.created@ == full_name(request_name(body)@, domain_name@)
                &&& exists|d: MailDomain, e: MailEntry|
                    entry_created(old(db)@, final(db)@, d, e, body, domain_name@, auth@)
            },
            Err(e) => {
                &&& *final(db) == *old(db)
                &&& {
                    ||| domain_gate_error(old(db)@, domain_name@, auth@, e)
                    ||| e matches APIError::AliasWouldBecomeEmpty(s) && s@ == full_name(
                        request_name(body)@,
                        domain_name@,
                    ) && has_members(request_kind(body)) && !has_real_member(request_text(body)@)
                    ||| e matches APIError::DatabaseError(x) && exists|d: MailDomain|
                        is_accessible(old(db)@, d, domain_name@, auth@) && entry_refused(
                            old(db)@,
                            d,
                            body,
                            x,
                        )
                }
            },
        },
{
    let domain = match accessible_domain(db, domain_name, auth) {
        Ok(d) => d,
        Err(e) => return Err(e),
    };
    assert(is_accessible(db@, domain, domain_name@, auth@));
    let full = make_full_name(body.name(), domain_name);
    let ghost gbody = body;
    let created = match body {
        CreateEntryRequest::Login { name, password } => {
            let c = domain.new_login(db, name.as_str(), password.as_str(), false);
            assert(c matches Ok(e) ==> entry_created(
                old(db)@,
                db@,
                domain,
                e,
                gbody,
                domain_name@,
                auth@,
            ));
            assert(c matches Err(x) ==> entry_refused(old(db)@, domain, gbody, x));
            c
        },
        CreateEntryRequest::Account { name, password } => {
            let c = domain.new_login(db, name.as_str(), password.as_str(), true);
            assert(c matches Ok(e) ==> entry_created(
                old(db)@,
                db@,
                domain,
                e,
                gbody,
                domain_name@,
                auth@,
            ));
            assert(c matches Err(x) ==> entry_refused(old(db)@, domain, gbody, x));
            c
        },
        CreateEntryRequest::Alias { name, expansion } => {
            if !names_a_member(expansion.as_str()) {
                return Err(APIError::AliasWouldBecomeEmpty(full));
            }
            let c = domain.new_alias(db, name.as_str(), expansion.as_str());
            assert(c matches Ok(e) ==> entry_created(
                old(db)@,
                db@,
                domain,
                e,
                gbody,
                domain_name@,
                auth@,
            ));
            assert(c matches Err(x) ==> entry_refused(old(db)@, domain, gbody, x));
            c
        },
        CreateEntryRequest::Bouncer { name, reason } => {
            let c = domain.new_bouncer(db, name.as_str(), reason.as_str());
            assert(c matches Ok(e) ==> entry_created(
                old(db)@,
                db@,
                domain,
                e,
                gbody,
                domain_name@,
                auth@,
            ));
            assert(c matches Err(x) ==> entry_refused(old(db)@, domain, gbody, x));
            c
        },
        CreateEntryRequest::Blackhole { name, reason } => {
            let c = domain.new_blackhole(db, name.as_str(), reason.as_str());
            assert(c matches Ok(e) ==> entry_created(
                old(db)@,
                db@,
                domain,
                e,
                gbody,
                domain_name@,
                auth@,
            ));
            assert(c matches Err(x) ==> entry_refused(old(db)@, domain, gbody, x));
            c
        },
        CreateEntryRequest::List { name, members } => {
            if !names_a_member(members.as_str()) {
                return Err(APIError::AliasWouldBecomeEmpty(full));
            }
            let c = domain.new_list(db, name.as_str(), members.as_str());
            assert(c matches Ok(e) ==> entry_created(
                old(db)@,
                db@,
                domain,
                e,
                gbody,
                domain_name@,
                auth@,
            ));
            assert(c matches Err(x) ==> entry_refused(old(db)@, domain, gbody, x));
            c
        },
    };
    match created {
        Ok(e) => {
            assert(entry_created(old(db)@, db@, domain, e, gbody, domain_name@, auth@));
            Ok(CreationResponse { created: full })
        },
        Err(e) => {
            assert(entry_refused(old(db)@, domain, gbody, e));
            Err(APIError::DatabaseError(e))
        },
    }
}

/// The row `n` is the row `e`: same id, domain and name.
pub open spec fn same_row(n: MailEntry, e: MailEntry) -> bool {
    n.id == e.id && n.maildomain == e.maildomain && n.name == e.name
}

/// The entry `n` is `e` with its kind kept and `text` as its field.
pub open spec fn retexted(n: MailEntry, e: MailEntry, text: Seq<char>) -> bool {
    same_row(n, e) && kind_of(n.payload) == kind_of(e.payload) && payload_text(n.payload)@ == text
}

/// What applying `body` to entry `e`, named `full` in messages, gives.
pub open spec fn edit_outcome(
    e: MailEntry,
    full: Seq<char>,
    body: EditEntryRequest,
    r: APIResult<MailEntry>,
) -> bool {
    let kind = kind_of(e.payload);
    let text = payload_text(e.payload)@;
    match body {
        EditEntryRequest::SetPassword { password } => if has_secret(kind) {
            match r {
                Ok(n) => same_row(n, e) && kind_of(n.payload) == kind && encodes(
                    password@,
                    payload_text(n.payload)@,
                ),
                Err(x) => x == APIError::DatabaseError(DbError::CredentialEncoding)
                    && encoding_may_fail(password@),
            }
        } else {
            r matches Err(APIError::NotLoginOrAccount(s)) && s@ == full
        },
        EditEntryRequest::Expansion { expansion } => if !has_members(kind) {
            r matches Err(APIError::NotAlias(s)) && s@ == full
        } else if !has_real_member(expansion@) {
            r matches Err(APIError::AliasWouldBecomeEmpty(s)) && s@ == full
        } else {
            r matches Ok(n) && retexted(n, e, expansion@)
        },
        EditEntryRequest::AddExpansion { add } => if has_members(kind) {
            r matches Ok(n) && retexted(n, e, added(text, add@))
        } else {
            r matches Err(APIError::NotAlias(s)) && s@ == full
        },
        EditEntryRequest::RemoveExpansion { remove } => if has_members(kind) {
            match removed(text, remove@) {
                Ok(t) => r matches Ok(n) && retexted(n, e, t),
                Err(ListEditError::WouldBecomeEmpty) => r matches Err(
                    APIError::AliasWouldBecomeEmpty(s),
                ) && s@ == full,
                Err(ListEditError::ComponentNotFound) => r matches Err(
                    APIError::AliasComponentNotFound(s),
                ) && s@ == remove@,
            }
        } else {
            r matches Err(APIError::NotAlias(s)) && s@ == full
        },
        EditEntryRequest::ChangeReason { reason } => if has_reason(kind) {
            r matches Ok(n) && retexted(n, e, reason@)
        } else {
            r matches Err(APIError::NotBouncerOrBlackhole(s)) && s@ == full
        },
    }
}

/// Applies `body` to entry `e`, named `full` in messages. Each change is
/// legal only for the kinds that carry the field it changes; member changes
/// go through the list editor and report its failures.
pub fn apply_edit(e: &MailEntry, full: &String, body: EditEntryRequest) -> (r: APIResult<MailEntry>)
    ensures
        edit_outcome(*e, full@, body, r),
{
    let kind = e.kind();
    let mut n = e.copied();
    match body {
        EditEntryRequest::SetPassword { password } => {
            if !(kind == MailEntryKind::Login || kind == MailEntryKind::Account) {
                return Err(APIError::NotLoginOrAccount(full.clone()));
            }
            match n.set_password(password.as_str()) {
                Ok(_) => Ok(n),
                Err(x) => Err(APIError::DatabaseError(x)),
            }
        },
        EditEntryRequest::Expansion { expansion } => {
            if !(kind == MailEntryKind::Alias || kind == MailEntryKind::List) {
                return Err(APIError::NotAlias(full.clone()));
            }
            if !names_a_member(expansion.as_str()) {
                return Err(APIError::AliasWouldBecomeEmpty(full.clone()));
            }
            n.payload = EntryPayload::with_kind(kind, expansion);
            Ok(n)
        },
        EditEntryRequest::AddExpansion { add } => {
            if !(kind == MailEntryKind::Alias || kind == MailEntryKind::List) {
                return Err(APIError::NotAlias(full.clone()));
            }
            let text = add_member(e.payload.text().as_str(), add.as_str());
            n.payload = EntryPayload::with_kind(kind, text);
            Ok(n)
        },
        EditEntryRequest::RemoveExpansion { remove } => {
            if !(kind == MailEntryKind::Alias || kind == MailEntryKind::List) {
                return Err(APIError::NotAlias(full.clone()));
            }
            match remove_member(e.payload.text().as_str(), remove.as_str()) {
                Ok(text) => {
                    n.payload = EntryPayload::with_kind(kind, text);
                    Ok(n)
                },
                Err(ListEditError::WouldBecomeEmpty) => Err(
                    APIError::AliasWouldBecomeEmpty(full.clone()),
                ),
                Err(ListEditError::ComponentNotFound) => Err(APIError::AliasComponentNotFound(remove)),
            }
        },
        EditEntryRequest::ChangeReason { reason } => {
            if !(kind == MailEntryKind::Bouncer || kind == MailEntryKind::Blackhole) {
                return Err(APIError::NotBouncerOrBlackhole(full.clone()));
            }
            n.payload = EntryPayload::with_kind(kind, reason);
            Ok(n)
        },
    }
}

/// Applies `body` to the entry called `entry` of the domain called
/// `domain_name`, stores the result, and names the entry.
pub fn update_entry(
    db: &mut MailStore,
    domain_name: &str,
    entry: &str,
    auth: &Authorisation,
    body: EditEntryRequest,
) -> (r: APIResult<EditEntryResponse>)
    requires
        old(db).wf(),
    ensures
        final(db).wf(),
        match r {
            Ok(resp) => {
                &&& resp.updated@ == full_name(entry@, domain_name@)
                &&& exists|d: MailDomain, e: MailEntry, n: MailEntry|
                    {
                        &&& is_accessible(old(db)@, d, domain_name@, auth@)
                        &&& old(db)@.entries.contains(e)
                        &&& e.maildomain == d.id
                        &&& e.name@ == entry@
                        &&& edit_outcome(
                            e,
                            full_name(entry@, domain_name@),
                            body,
                            Ok::<MailEntry, APIError>(n),
                        )
                        &&& final(db)@ == (StoreModel {
                            entries: old(db)@.entries.update(entry_index(old(db)@, e.id), n),
                            ..old(db)@
                        })
                    }
            },
            Err(x) => {
                &&& *final(db) == *old(db)
                &&& {
                    ||| entry_gate_error(old(db)@, domain_name@, entry@, auth@, x)
                    ||| exists|d: MailDomain, e: MailEntry|
                        {
                            &&& is_accessible(old(db)@, d, domain_name@, auth@)
                            &&& old(db)@.entries.contains(e)
                            &&& e.maildomain == d.id
                            &&& e.name@ == entry@
                            &&& edit_outcome(
                                e,
                                full_name(entry@, domain_name@),
                                body,
                                Err::<MailEntry, APIError>(x),
                            )
                        }
                }
            },
        },
{
    let (d, e) = match accessible_entry(db, domain_name, entry, auth) {
        Ok(found) => found,
        Err(x) => return Err(x),
    };
    assert(is_accessible(db@, d, domain_name@, auth@));
    let full = make_full_name(entry, domain_name);
    let ghost gbody = body;
    let n = match apply_edit(&e, &full, body) {
        Ok(n) => n,
        Err(x) => {
            assert(edit_outcome(e, full_name(entry@, domain_name@), gbody, Err::<MailEntry, APIError>(x)));
            return Err(x);
        },
    };
    assert(edit_outcome(e, full_name(entry@, domain_name@), gbody, Ok::<MailEntry, APIError>(n)));
    proof {
        let v = db@;
        lemma_entry_rows(v);
        let k = choose|k: int| 0 <= k < v.entries.len() && v.entries[k] == e;
        assert(v.entries[k].id == n.id);
        assert forall|i: int|
            0 <= i < v.entries.len() && v.entries[i].id != n.id && v.entries[i].maildomain
                == n.maildomain implies #[trigger] v.entries[i].name@ != n.name@ by {
            if v.entries[i].name@ == n.name@ {
                assert(v.entries[k].maildomain == v.entries[i].maildomain);
            }
        }
    }
    match n.save(db) {
        Ok(_) => Ok(EditEntryResponse { updated: full }),
        Err(x) => Err(APIError::DatabaseError(x)),
    }
}

/// On an alias or list, adding a clean member `x`, removing it and adding it
/// again leaves the same members as the first addition, and a further round
/// trip from there changes nothing.
pub proof fn law_entry_round_trip(
    e0: MailEntry,
    e1: MailEntry,
    e2: MailEntry,
    e3: MailEntry,
    full: Seq<char>,
    x: String,
)
    requires
        is_clean(x@),
        has_members(kind_of(e0.payload)),
        edit_outcome(e0, full, EditEntryRequest::AddExpansion { add: x }, Ok::<MailEntry, APIError>(e1)),
        edit_outcome(
            e1,
            full,
            EditEntryRequest::RemoveExpansion { remove: x },
            Ok::<MailEntry, APIError>(e2),
        ),
        edit_outcome(e2, full, EditEntryRequest::AddExpansion { add: x }, Ok::<MailEntry, APIError>(e3)),
    ensures
        kind_of(e3.payload) == kind_of(e0.payload),
        members(payload_text(e3.payload)@).to_set() == members(payload_text(e1.payload)@).to_set(),
        removed(payload_text(e3.payload)@, x@) == Ok::<Seq<char>, ListEditError>(
            payload_text(e2.payload)@,
        ),
        added(payload_text(e2.payload)@, x@) == payload_text(e3.payload)@,
{
    let t0 = payload_text(e0.payload)@;
    assert(payload_text(e1.payload)@ == added(t0, x@));
    assert(removed(added(t0, x@), x@) is Ok);
    crate::expansion::law_add_remove_round_trip(t0, x@);
}

} // verus!
