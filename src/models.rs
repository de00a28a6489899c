//! The administrative records and the store that holds them.
//!
//! The store keeps five relations (users, domains, entries, tokens and domain
//! keys) plus the per-domain sender rules, each row keyed by a surrogate
//! integer, with the uniqueness constraints of the schema as its invariant.

use vstd::prelude::*;

pub mod sql_types;
pub mod store;
pub mod util;

pub use self::sql_types::MailEntryKind;
pub use self::store::{MailStore, StoreModel};
use self::store::{
    lemma_unique_at, lemma_fresh_id, lemma_push_ids, lemma_push_unique, lemma_update_ids, lemma_update_unique,
};
pub use self::util::Authorisation;
use self::util::{create_dkim_pair, encode_password, new_token_value};

verus! {

/// A failure reported by the store.
#[derive(Debug, Clone, PartialEq, Eq)]
pub enum DbError {
    /// No row has the id asked for.
    NotFound,
    /// The row would break a uniqueness constraint, named here.
    UniqueViolation(String),
    /// Every row id has been handed out.
    IdsExhausted,
    /// Signing-key material could not be made.
    KeyMaterial(String),
    /// A login secret could not be encoded.
    CredentialEncoding,
}

/// The outcome of a store operation.
pub type QueryResult<T> = Result<T, DbError>;

pub struct MailUser {
    pub id: i32,
    pub username: String,
    pub superuser: bool,
}

pub struct MailDomain {
    pub id: i32,
    pub owner: i32,
    pub domainname: String,
    pub remotemx: Option<String>,
    pub sender_verify: bool,
    pub grey_listing: bool,
    pub virus_check: bool,
    pub spamcheck_threshold: i32,
}

pub struct AllowDenyList {
    pub id: i32,
    pub maildomain: i32,
    pub allow: bool,
    pub value: String,
}

pub struct MailAuthToken {
    pub id: i32,
    pub mailuser: i32,
    pub token: String,
    pub label: String,
}

pub struct MailDomainKey {
    pub id: i32,
    pub maildomain: i32,
    pub selector: String,
    pub privkey: String,
    pub pubkey: String,
    pub signing: bool,
}

/// What an entry holds besides its name: the kind, with the one field that
/// kind carries.
pub enum EntryPayload {
    Login { password: String },
    Account { password: String },
    Alias { expansion: String },
    Bouncer { reason: String },
    Blackhole { reason: String },
    List { members: String },
}

/// An addressable unit of a domain. Its kind fixes which field it carries, so
/// a login never has an expansion and an alias never has a secret.
pub struct MailEntry {
    pub id: i32,
    pub maildomain: i32,
    pub name: String,
    pub payload: EntryPayload,
}

/// The kind of an entry with the given payload.
pub open spec fn kind_of(p: EntryPayload) -> MailEntryKind {
    match p {
        EntryPayload::Login { .. } => MailEntryKind::Login,
        EntryPayload::Account { .. } => MailEntryKind::Account,
        EntryPayload::Alias { .. } => MailEntryKind::Alias,
        EntryPayload::Bouncer { .. } => MailEntryKind::Bouncer,
        EntryPayload::Blackhole { .. } => MailEntryKind::Blackhole,
        EntryPayload::List { .. } => MailEntryKind::List,
    }
}

/// The text field of a payload: the stored secret of a login or account, the
/// member list of an alias or list, the reason of a bouncer or blackhole.
pub open spec fn payload_text(p: EntryPayload) -> String {
    match p {
        EntryPayload::Login { password } => password,
        EntryPayload::Account { password } => password,
        EntryPayload::Alias { expansion } => expansion,
        EntryPayload::Bouncer { reason } => reason,
        EntryPayload::Blackhole { reason } => reason,
        EntryPayload::List { members } => members,
    }
}

/// A payload of the given kind carrying `text`.
pub open spec fn payload_of(kind: MailEntryKind, text: String) -> EntryPayload {
    match kind {
        MailEntryKind::Login => EntryPayload::Login { password: text },
        MailEntryKind::Account => EntryPayload::Account { password: text },
        MailEntryKind::Alias => EntryPayload::Alias { expansion: text },
        MailEntryKind::Bouncer => EntryPayload::Bouncer { reason: text },
        MailEntryKind::Blackhole => EntryPayload::Blackhole { reason: text },
        MailEntryKind::List => EntryPayload::List { members: text },
    }
}

impl EntryPayload {
    /// The kind of this payload.
    pub fn kind(&self) -> (r: MailEntryKind)
        ensures
            r == kind_of(*self),
    {
        match self {
            EntryPayload::Login { .. } => MailEntryKind::Login,
            EntryPayload::Account { .. } => MailEntryKind::Account,
            EntryPayload::Alias { .. } => MailEntryKind::Alias,
            EntryPayload::Bouncer { .. } => MailEntryKind::Bouncer,
            EntryPayload::Blackhole { .. } => MailEntryKind::Blackhole,
            EntryPayload::List { .. } => MailEntryKind::List,
        }
    }

    /// The text this payload carries.
    pub fn text(&self) -> (r: &String)
        ensures
            *r == payload_text(*self),
    {
        match self {
            EntryPayload::Login { password } => password,
            EntryPayload::Account { password } => password,
            EntryPayload::Alias { expansion } => expansion,
            EntryPayload::Bouncer { reason } => reason,
            EntryPayload::Blackhole { reason } => reason,
            EntryPayload::List { members } => members,
        }
    }

    /// A payload of `kind` carrying `text`.
    pub fn with_kind(kind: MailEntryKind, text: String) -> (r: Self)
        ensures
            r == payload_of(kind, text),
    {
        match kind {
            MailEntryKind::Login => EntryPayload::Login { password: text },
            MailEntryKind::Account => EntryPayload::Account { password: text },
            MailEntryKind::Alias => EntryPayload::Alias { expansion: text },
            MailEntryKind::Bouncer => EntryPayload::Bouncer { reason: text },
            MailEntryKind::Blackhole => EntryPayload::Blackhole { reason: text },
            MailEntryKind::List => EntryPayload::List { members: text },
        }
    }

    pub fn copied(&self) -> (r: Self)
        ensures
            r == *self,
    {
        let k = self.kind();
        let t = self.text().clone();
        let r = EntryPayload::with_kind(k, t);
        assert(r == *self);
        r
    }
}

impl MailEntry {
    /// The kind of this entry.
    pub fn kind(&self) -> (r: MailEntryKind)
        ensures
            r == kind_of(self.payload),
    {
        self.payload.kind()
    }

    pub fn copied(&self) -> (r: Self)
        ensures
            r == *self,
    {
        MailEntry {
            id: self.id,
            maildomain: self.maildomain,
            name: self.name.clone(),
            payload: self.payload.copied(),
        }
    }
}

/// A copy of an optional string that Verus knows to be equal to it.
pub fn copy_opt_string(s: &Option<String>) -> (r: Option<String>)
    ensures
        r == *s,
{
    match s {
        Some(t) => Some(t.clone()),
        None => None,
    }
}

impl MailUser {
    pub fn copied(&self) -> (r: Self)
        ensures
            r == *self,
    {
        MailUser { id: self.id, username: self.username.clone(), superuser: self.superuser }
    }
}

impl MailDomain {
    pub fn copied(&self) -> (r: Self)
        ensures
            r == *self,
    {
        MailDomain {
            id: self.id,
            owner: self.owner,
            domainname: self.domainname.clone(),
            remotemx: copy_opt_string(&self.remotemx),
            sender_verify: self.sender_verify,
            grey_listing: self.grey_listing,
            virus_check: self.virus_check,
            spamcheck_threshold: self.spamcheck_threshold,
        }
    }
}

impl AllowDenyList {
    pub fn copied(&self) -> (r: Self)
        ensures
            r == *self,
    {
        AllowDenyList {
            id: self.id,
            maildomain: self.maildomain,
            allow: self.allow,
            value: self.value.clone(),
        }
    }
}

impl MailAuthToken {
    pub fn copied(&self) -> (r: Self)
        ensures
            r == *self,
    {
        MailAuthToken {
            id: self.id,
            mailuser: self.mailuser,
            token: self.token.clone(),
            label: self.label.clone(),
        }
    }
}

impl MailDomainKey {
    pub fn copied(&self) -> (r: Self)
        ensures
            r == *self,
    {
        MailDomainKey {
            id: self.id,
            maildomain: self.maildomain,
            selector: self.selector.clone(),
            privkey: self.privkey.clone(),
            pubkey: self.pubkey.clone(),
            signing: self.signing,
        }
    }
}

/// Some user of `v` is called `name`.
pub open spec fn user_named(v: StoreModel, name: Seq<char>) -> bool {
    exists|i: int| 0 <= i < v.users.len() && #[trigger] v.users[i].username@ == name
}

/// Some domain of `v` is called `name`.
pub open spec fn domain_named(v: StoreModel, name: Seq<char>) -> bool {
    exists|i: int| 0 <= i < v.domains.len() && #[trigger] v.domains[i].domainname@ == name
}

/// The tokens of user `user`.
pub open spec fn owned_tokens(user: i32) -> spec_fn(MailAuthToken) -> bool {
    |t: MailAuthToken| t.mailuser == user
}

/// The domains owned by user `user`.
pub open spec fn owned_domains(user: i32) -> spec_fn(MailDomain) -> bool {
    |d: MailDomain| d.owner == user
}

impl MailUser {
    /// The user with id `id`; `NotFound` where there is none.
    pub fn by_id(db: &MailStore, id: i32) -> (r: QueryResult<MailUser>)
        ensures
            match r {
                Ok(u) => db@.users.contains(u) && u.id == id,
                Err(e) => e == DbError::NotFound && forall|i: int|
                    0 <= i < db@.users.len() ==> #[trigger] db@.users[i].id != id,
            },
    {
        let rows = db.users();
        let mut i: usize = 0;
        while i < rows.len()
            invariant
                rows@ == db@.users,
                i <= rows.len(),
                forall|k: int| 0 <= k < i ==> #[trigger] rows@[k].id != id,
            decreases rows.len() - i,
        {
            if rows[i].id == id {
                return Ok(rows[i].copied());
            }
            i = i + 1;
        }
        Err(DbError::NotFound)
    }

    /// The user called `name`, if any.
    pub fn by_name(db: &MailStore, name: &str) -> (r: Option<MailUser>)
        ensures
            match r {
                Some(u) => db@.users.contains(u) && u.username@ == name@,
                None => !user_named(db@, name@),
            },
    {
        let rows = db.users();
        let target = String::from_str(name);
        let mut i: usize = 0;
        while i < rows.len()
            invariant
                rows@ == db@.users,
                target@ == name@,
                i <= rows.len(),
                forall|k: int| 0 <= k < i ==> #[trigger] rows@[k].username@ != name@,
            decreases rows.len() - i,
        {
            if rows[i].username == target {
                return Some(rows[i].copied());
            }
            i = i + 1;
        }
        None
    }

    /// Every user.
    pub fn all(db: &MailStore) -> (r: Vec<MailUser>)
        ensures
            r@ == db@.users,
    {
        let rows = db.users();
        let mut out: Vec<MailUser> = Vec::new();
        let mut i: usize = 0;
        while i < rows.len()
            invariant
                rows@ == db@.users,
                i <= rows.len(),
                out@ == rows@.take(i as int),
            decreases rows.len() - i,
        {
            out.push(rows[i].copied());
            assert(out@ =~= rows@.take(i + 1));
            i = i + 1;
        }
        assert(rows@.take(rows.len() as int) =~= rows@);
        out
    }

    /// A new user. Usernames are unique: `UniqueViolation` where one is taken.
    pub fn create(db: &mut MailStore, username: &str, superuser: bool) -> (r: QueryResult<MailUser>)
        requires
            old(db).wf(),
        ensures
            final(db).wf(),
            match r {
                Ok(u) => {
                    &&& !user_named(old(db)@, username@)
                    &&& u.id == old(db)@.next_id
                    &&& u.username@ == username@
                    &&& u.superuser == superuser
                    &&& final(db)@ == (StoreModel {
                        users: old(db)@.users.push(u),
                        next_id: old(db)@.next_id + 1,
                        ..old(db)@
                    })
                },
                Err(e) => {
                    &&& *final(db) == *old(db)
                    &&& (e is UniqueViolation) == user_named(old(db)@, username@)
                    &&& (e is IdsExhausted) == (!user_named(old(db)@, username@)
                        && old(db)@.next_id == i32::MAX)
                    &&& (e is UniqueViolation || e is IdsExhausted)
                },
            },
    {
        if MailUser::by_name(db, username).is_some() {
            return Err(DbError::UniqueViolation(String::from_str("mailuser.username")));
        }
        let id = match db.fresh_id() {
            Ok(id) => id,
            Err(e) => return Err(e),
        };
        let u = MailUser { id, username: String::from_str(username), superuser };
        proof {
            let v = db@;
            lemma_fresh_id(v.users, |x: MailUser| x.id, id as int, u);
            lemma_push_ids(v.users, |x: MailUser| x.id, id + 1, u);
            lemma_push_unique(v.users, |x: MailUser| x.id, u);
            assert forall|i: int| 0 <= i < v.users.len() implies (|x: MailUser| x.username@)(
                #[trigger] v.users[i],
            ) != (|x: MailUser| x.username@)(u) by {}
            lemma_push_unique(v.users, |x: MailUser| x.username@, u);
        }
        db.push_user(u.copied());
        Ok(u)
    }

    /// The tokens of this user.
    pub fn tokens(&self, db: &MailStore) -> (r: Vec<MailAuthToken>)
        ensures
            r@ == db@.tokens.filter(owned_tokens(self.id)),
    {
        let rows = db.tokens();
        let mut out: Vec<MailAuthToken> = Vec::new();
        let mut i: usize = 0;
        proof {
            reveal(Seq::filter);
            assert(rows@.take(0) =~= Seq::<MailAuthToken>::empty());
        }
        while i < rows.len()
            invariant
                rows@ == db@.tokens,
                i <= rows.len(),
                out@ == rows@.take(i as int).filter(owned_tokens(self.id)),
            decreases rows.len() - i,
        {
            proof {
                assert(rows@.take(i + 1) =~= rows@.take(i as int).push(rows@[i as int]));
                rows@.take(i as int).lemma_filter_push(rows@[i as int], owned_tokens(self.id));
            }
            if rows[i].mailuser == self.id {
                out.push(rows[i].copied());
            }
            i = i + 1;
        }
        assert(rows@.take(rows.len() as int) =~= rows@);
        out
    }
}

/// Domain ids identify rows.
pub open spec fn unique_ids_domains(v: StoreModel) -> bool {
    forall|i: int, j: int|
        0 <= i < v.domains.len() && 0 <= j < v.domains.len() && #[trigger] v.domains[i].id
            == #[trigger] v.domains[j].id ==> i == j
}

/// Some domain of `v` has id `id`.
pub open spec fn has_domain_id(v: StoreModel, id: i32) -> bool {
    exists|i: int| 0 <= i < v.domains.len() && #[trigger] v.domains[i].id == id
}

/// The position of the domain with id `id`.
pub open spec fn domain_index(v: StoreModel, id: i32) -> int {
    choose|i: int| 0 <= i < v.domains.len() && #[trigger] v.domains[i].id == id
}

/// A domain other than the one with id `id` is called `name`.
pub open spec fn other_domain_named(v: StoreModel, id: i32, name: Seq<char>) -> bool {
    exists|i: int|
        0 <= i < v.domains.len() && v.domains[i].id != id && #[trigger] v.domains[i].domainname@
            == name
}

/// Whether the identity `auth` may administer domain `d`: a superuser may
/// administer every domain, any other user the domains they own.
pub open spec fn may_access_spec(d: MailDomain, auth: util::AuthView) -> bool {
    auth.superuser || auth.user == d.owner
}

impl MailDomain {
    /// Whether `auth` may administer this domain.
    pub fn may_access(&self, auth: &Authorisation) -> (r: bool)
        ensures
            r == may_access_spec(*self, auth@),
            r == (auth@.superuser || auth@.user == self.owner),
    {
        auth.superuser() || self.owner == auth.user()
    }

    /// A new domain. Domain names are unique: `UniqueViolation` where one is
    /// taken.
    #[allow(clippy::too_many_arguments)]
    pub fn create(
        db: &mut MailStore,
        domain_name: &str,
        owner: i32,
        remote_mx: Option<&str>,
        sender_verify: bool,
        grey_listing: bool,
        virus_check: bool,
        spamcheck_threshold: i32,
    ) -> (r: QueryResult<Self>)
        requires
            old(db).wf(),
        ensures
            final(db).wf(),
            match r {
                Ok(d) => {
                    &&& !domain_named(old(db)@, domain_name@)
                    &&& d.id == old(db)@.next_id
                    &&& d.owner == owner
                    &&& d.domainname@ == domain_name@
                    &&& match remote_mx {
                        Some(m) => d.remotemx matches Some(x) && x@ == m@,
                        None => d.remotemx is None,
                    }
                    &&& d.sender_verify == sender_verify
                    &&& d.grey_listing == grey_listing
                    &&& d.virus_check == virus_check
                    &&& d.spamcheck_threshold == spamcheck_threshold
                    &&& final(db)@ == (StoreModel {
                        domains: old(db)@.domains.push(d),
                        next_id: old(db)@.next_id + 1,
                        ..old(db)@
                    })
                },
                Err(e) => {
                    &&& *final(db) == *old(db)
                    &&& (e is UniqueViolation) == domain_named(old(db)@, domain_name@)
                    &&& (e is IdsExhausted) == (!domain_named(old(db)@, domain_name@)
                        && old(db)@.next_id == i32::MAX)
                    &&& (e is UniqueViolation || e is IdsExhausted)
                },
            },
    {
        if MailDomain::by_name(db, domain_name).is_some() {
            return Err(DbError::UniqueViolation(String::from_str("maildomain.domainname")));
        }
        let id = match db.fresh_id() {
            Ok(id) => id,
            Err(e) => return Err(e),
        };
        let remotemx = match remote_mx {
            Some(m) => Some(String::from_str(m)),
            None => None,
        };
        let d = MailDomain {
            id,
            owner,
            domainname: String::from_str(domain_name),
            remotemx,
            sender_verify,
            grey_listing,
            virus_check,
            spamcheck_threshold,
        };
        proof {
            let v = db@;
            lemma_fresh_id(v.domains, |x: MailDomain| x.id, id as int, d);
            lemma_push_ids(v.domains, |x: MailDomain| x.id, id + 1, d);
            lemma_push_unique(v.domains, |x: MailDomain| x.id, d);
            assert forall|i: int| 0 <= i < v.domains.len() implies (|x: MailDomain| x.domainname@)(
                #[trigger] v.domains[i],
            ) != (|x: MailDomain| x.domainname@)(d) by {}
            lemma_push_unique(v.domains, |x: MailDomain| x.domainname@, d);
        }
        db.push_domain(d.copied());
        Ok(d)
    }

    /// Every domain.
    pub fn get_all(db: &MailStore) -> (r: Vec<Self>)
        ensures
            r@ == db@.domains,
    {
        let rows = db.domains();
        let mut out: Vec<MailDomain> = Vec::new();
        let mut i: usize = 0;
        while i < rows.len()
            invariant
                rows@ == db@.domains,
                i <= rows.len(),
                out@ == rows@.take(i as int),
            decreases rows.len() - i,
        {
            out.push(rows[i].copied());
            assert(out@ =~= rows@.take(i + 1));
            i = i + 1;
        }
        assert(rows@.take(rows.len() as int) =~= rows@);
        out
    }

    /// The domains that user `owner` owns.
    pub fn by_owner(db: &MailStore, owner: i32) -> (r: Vec<Self>)
        ensures
            r@ == db@.domains.filter(owned_domains(owner)),
    {
        let rows = db.domains();
        let mut out: Vec<MailDomain> = Vec::new();
        let mut i: usize = 0;
        proof {
            reveal(Seq::filter);
            assert(rows@.take(0) =~= Seq::<MailDomain>::empty());
        }
        while i < rows.len()
            invariant
                rows@ == db@.domains,
                i <= rows.len(),
                out@ == rows@.take(i as int).filter(owned_domains(owner)),
            decreases rows.len() - i,
        {
            proof {
                assert(rows@.take(i + 1) =~= rows@.take(i as int).push(rows@[i as int]));
                rows@.take(i as int).lemma_filter_push(rows@[i as int], owned_domains(owner));
            }
            if rows[i].owner == owner {
                out.push(rows[i].copied());
            }
            i = i + 1;
        }
        assert(rows@.take(rows.len() as int) =~= rows@);
        out
    }

    /// The domain called `name`, if any.
    pub fn by_name(db: &MailStore, name: &str) -> (r: Option<Self>)
        ensures
            match r {
                Some(d) => db@.domains.contains(d) && d.domainname@ == name@,
                None => !domain_named(db@, name@),
            },
    {
        let rows = db.domains();
        let target = String::from_str(name);
        let mut i: usize = 0;
        while i < rows.len()
            invariant
                rows@ == db@.domains,
                target@ == name@,
                i <= rows.len(),
                forall|k: int| 0 <= k < i ==> #[trigger] rows@[k].domainname@ != name@,
            decreases rows.len() - i,
        {
            if rows[i].domainname == target {
                return Some(rows[i].copied());
            }
            i = i + 1;
        }
        None
    }

    /// Writes this domain's fields over the row with its id. `NotFound` where
    /// there is no such row, `UniqueViolation` where another domain has its
    /// name.
    pub fn save(&self, db: &mut MailStore) -> (r: QueryResult<()>)
        requires
            old(db).wf(),
        ensures
            final(db).wf(),
            match r {
                Ok(_) => {
                    &&& has_domain_id(old(db)@, self.id)
                    &&& !other_domain_named(old(db)@, self.id, self.domainname@)
                    &&& final(db)@ == (StoreModel {
                        domains: old(db)@.domains.update(domain_index(old(db)@, self.id), *self),
                        ..old(db)@
                    })
                },
                Err(e) => {
                    &&& *final(db) == *old(db)
                    &&& (e is NotFound) == !has_domain_id(old(db)@, self.id)
                    &&& (e is UniqueViolation) == (has_domain_id(old(db)@, self.id)
                        && other_domain_named(old(db)@, self.id, self.domainname@))
                    &&& (e is NotFound || e is UniqueViolation)
                },
            },
    {
        let rows = db.domains();
        let n = rows.len();
        let mut at: Option<usize> = None;
        let mut clash = false;
        let mut i: usize = 0;
        while i < n
            invariant
                rows@ == db@.domains,
                n == rows.len(),
                i <= n,
                db.wf(),
                match at {
                    Some(k) => k < i && rows@[k as int].id == self.id,
                    None => forall|k: int| 0 <= k < i ==> #[trigger] rows@[k].id != self.id,
                },
                clash == exists|k: int|
                    0 <= k < i && rows@[k].id != self.id && #[trigger] rows@[k].domainname@
                        == self.domainname@,
            decreases n - i,
        {
            if rows[i].id == self.id {
                at = Some(i);
            } else if rows[i].domainname == self.domainname {
                clash = true;
            }
            i = i + 1;
        }
        match at {
            None => Err(DbError::NotFound),
            Some(k) => {
                if clash {
                    return Err(DbError::UniqueViolation(String::from_str("maildomain.domainname")));
                }
                proof {
                    let v = db@;
                    assert(v.domains[k as int].id == self.id);
                    lemma_domain_rows(v);
                    assert(domain_index(v, self.id) == k);
                    lemma_update_ids(v.domains, |x: MailDomain| x.id, v.next_id, k as int, *self);
                    lemma_update_unique(v.domains, |x: MailDomain| x.id, k as int, *self);
                    lemma_update_unique(v.domains, |x: MailDomain| x.domainname@, k as int, *self);
                }
                db.set_domain(k, self.copied());
                Ok(())
            },
        }
    }
}

/// The entries of domain `domain`.
pub open spec fn in_domain(domain: i32) -> spec_fn(MailEntry) -> bool {
    |e: MailEntry| e.maildomain == domain
}

/// Domain `domain` of `v` has an entry called `name`.
pub open spec fn entry_named(v: StoreModel, domain: i32, name: Seq<char>) -> bool {
    exists|i: int|
        0 <= i < v.entries.len() && v.entries[i].maildomain == domain && #[trigger] v.entries[i].name@
            == name
}

/// Some entry of `v` has id `id`.
pub open spec fn has_entry_id(v: StoreModel, id: i32) -> bool {
    exists|i: int| 0 <= i < v.entries.len() && #[trigger] v.entries[i].id == id
}

/// The position of the entry with id `id`.
pub open spec fn entry_index(v: StoreModel, id: i32) -> int {
    choose|i: int| 0 <= i < v.entries.len() && #[trigger] v.entries[i].id == id
}

/// An entry other than the one with id `id` has the domain and name of `e`.
pub open spec fn other_entry_named(v: StoreModel, e: MailEntry) -> bool {
    exists|i: int|
        0 <= i < v.entries.len() && v.entries[i].id != e.id && v.entries[i].maildomain
            == e.maildomain && #[trigger] v.entries[i].name@ == e.name@
}

/// The schema's constraints on entries, one row at a time.
pub proof fn lemma_entry_rows(v: StoreModel)
    requires
        v.wf(),
    ensures
        forall|i: int, j: int|
            0 <= i < v.entries.len() && 0 <= j < v.entries.len() && #[trigger] v.entries[i].id
                == #[trigger] v.entries[j].id ==> i == j,
        forall|i: int, j: int|
            0 <= i < v.entries.len() && 0 <= j < v.entries.len() && v.entries[i].maildomain
                == v.entries[j].maildomain && #[trigger] v.entries[i].name@
                == #[trigger] v.entries[j].name@ ==> i == j,
        forall|i: int| 0 <= i < v.entries.len() ==> 1 <= #[trigger] v.entries[i].id < v.next_id,
{
    assert forall|i: int, j: int|
        0 <= i < v.entries.len() && 0 <= j < v.entries.len() && #[trigger] v.entries[i].id
            == #[trigger] v.entries[j].id implies i == j by {
        lemma_unique_at(v.entries, |x: MailEntry| x.id, i, j);
    }
    assert forall|i: int, j: int|
        0 <= i < v.entries.len() && 0 <= j < v.entries.len() && v.entries[i].maildomain
            == v.entries[j].maildomain && #[trigger] v.entries[i].name@
            == #[trigger] v.entries[j].name@ implies i == j by {
        lemma_unique_at(v.entries, |x: MailEntry| (x.maildomain, x.name@), i, j);
    }
    assert forall|i: int| 0 <= i < v.entries.len() implies 1 <= #[trigger] v.entries[i].id
        < v.next_id by {
        assert(1 <= (|x: MailEntry| x.id)(v.entries[i]) < v.next_id);
    }
}

/// Some token of `v` has the value `token`.
pub open spec fn token_stored(v: StoreModel, token: Seq<char>) -> bool {
    exists|i: int| 0 <= i < v.tokens.len() && #[trigger] v.tokens[i].token@ == token
}

/// Some token of `v` has id `id`.
pub open spec fn has_token_id(v: StoreModel, id: i32) -> bool {
    exists|i: int| 0 <= i < v.tokens.len() && #[trigger] v.tokens[i].id == id
}

/// The position of the token with id `id`.
pub open spec fn token_index(v: StoreModel, id: i32) -> int {
    choose|i: int| 0 <= i < v.tokens.len() && #[trigger] v.tokens[i].id == id
}

/// The sender rules of domain `domain` that allow (or, with `allow` false,
/// deny).
pub open spec fn rules_of(domain: i32, allow: bool) -> spec_fn(AllowDenyList) -> bool {
    |r: AllowDenyList| r.maildomain == domain && r.allow == allow
}

/// The keys of domain `domain`.
pub open spec fn keys_of(domain: i32) -> spec_fn(MailDomainKey) -> bool {
    |k: MailDomainKey| k.maildomain == domain
}

/// Domain `domain` of `v` has a key with selector `selector`.
pub open spec fn selector_taken(v: StoreModel, domain: i32, selector: Seq<char>) -> bool {
    exists|i: int|
        0 <= i < v.keys.len() && v.keys[i].maildomain == domain && #[trigger] v.keys[i].selector@
            == selector
}

/// Some key of `v` has id `id`.
pub open spec fn has_key_id(v: StoreModel, id: i32) -> bool {
    exists|i: int| 0 <= i < v.keys.len() && #[trigger] v.keys[i].id == id
}

/// The position of the key with id `id`.
pub open spec fn key_index(v: StoreModel, id: i32) -> int {
    choose|i: int| 0 <= i < v.keys.len() && #[trigger] v.keys[i].id == id
}

/// Another key than the one with id `id` has the domain and selector of `k`.
pub open spec fn other_key_selector(v: StoreModel, k: MailDomainKey) -> bool {
    exists|i: int|
        0 <= i < v.keys.len() && v.keys[i].id != k.id && v.keys[i].maildomain == k.maildomain
            && #[trigger] v.keys[i].selector@ == k.selector@
}

/// The schema's constraints on tokens and keys, one row at a time.
pub proof fn lemma_token_key_rows(v: StoreModel)
    requires
        v.wf(),
    ensures
        forall|i: int, j: int|
            0 <= i < v.tokens.len() && 0 <= j < v.tokens.len() && #[trigger] v.tokens[i].id
                == #[trigger] v.tokens[j].id ==> i == j,
        forall|i: int, j: int|
            0 <= i < v.tokens.len() && 0 <= j < v.tokens.len() && #[trigger] v.tokens[i].token@
                == #[trigger] v.tokens[j].token@ ==> i == j,
        forall|i: int, j: int|
            0 <= i < v.keys.len() && 0 <= j < v.keys.len() && #[trigger] v.keys[i].id
                == #[trigger] v.keys[j].id ==> i == j,
        forall|i: int, j: int|
            0 <= i < v.keys.len() && 0 <= j < v.keys.len() && v.keys[i].maildomain
                == v.keys[j].maildomain && #[trigger] v.keys[i].selector@
                == #[trigger] v.keys[j].selector@ ==> i == j,
        forall|i: int| 0 <= i < v.keys.len() ==> 1 <= #[trigger] v.keys[i].id < v.next_id,
{
    assert forall|i: int, j: int|
        0 <= i < v.tokens.len() && 0 <= j < v.tokens.len() && #[trigger] v.tokens[i].id
            == #[trigger] v.tokens[j].id implies i == j by {
        lemma_unique_at(v.tokens, |x: MailAuthToken| x.id, i, j);
    }
    assert forall|i: int, j: int|
        0 <= i < v.tokens.len() && 0 <= j < v.tokens.len() && #[trigger] v.tokens[i].token@
            == #[trigger] v.tokens[j].token@ implies i == j by {
        lemma_unique_at(v.tokens, |x: MailAuthToken| x.token@, i, j);
    }
    assert forall|i: int, j: int|
        0 <= i < v.keys.len() && 0 <= j < v.keys.len() && #[trigger] v.keys[i].id
            == #[trigger] v.keys[j].id implies i == j by {
        lemma_unique_at(v.keys, |x: MailDomainKey| x.id, i, j);
    }
    assert forall|i: int, j: int|
        0 <= i < v.keys.len() && 0 <= j < v.keys.len() && v.keys[i].maildomain
            == v.keys[j].maildomain && #[trigger] v.keys[i].selector@
            == #[trigger] v.keys[j].selector@ implies i == j by {
        lemma_unique_at(v.keys, |x: MailDomainKey| (x.maildomain, x.selector@), i, j);
    }
    assert forall|i: int| 0 <= i < v.keys.len() implies 1 <= #[trigger] v.keys[i].id
        < v.next_id by {
        assert(1 <= (|x: MailDomainKey| x.id)(v.keys[i]) < v.next_id);
    }
}

/// The schema's constraints on domains, one row at a time.
pub proof fn lemma_domain_rows(v: StoreModel)
    requires
        v.wf(),
    ensures
        unique_ids_domains(v),
        forall|i: int, j: int|
            0 <= i < v.domains.len() && 0 <= j < v.domains.len() && #[trigger] v.domains[i].domainname@
                == #[trigger] v.domains[j].domainname@ ==> i == j,
        forall|i: int| 0 <= i < v.domains.len() ==> 1 <= #[trigger] v.domains[i].id < v.next_id,
{
    assert forall|i: int, j: int|
        0 <= i < v.domains.len() && 0 <= j < v.domains.len() && #[trigger] v.domains[i].id
            == #[trigger] v.domains[j].id implies i == j by {
        lemma_unique_at(v.domains, |x: MailDomain| x.id, i, j);
    }
    assert forall|i: int, j: int|
        0 <= i < v.domains.len() && 0 <= j < v.domains.len() && #[trigger] v.domains[i].domainname@
            == #[trigger] v.domains[j].domainname@ implies i == j by {
        lemma_unique_at(v.domains, |x: MailDomain| x.domainname@, i, j);
    }
    assert forall|i: int| 0 <= i < v.domains.len() implies 1 <= #[trigger] v.domains[i].id
        < v.next_id by {
        assert(1 <= (|x: MailDomain| x.id)(v.domains[i]) < v.next_id);
    }
}

impl MailDomain {
    /// The entries of this domain.
    pub fn entries(&self, db: &MailStore) -> (r: Vec<MailEntry>)
        ensures
            r@ == db@.entries.filter(in_domain(self.id)),
    {
        let rows = db.entries();
        let mut out: Vec<MailEntry> = Vec::new();
        let mut i: usize = 0;
        proof {
            reveal(Seq::filter);
            assert(rows@.take(0) =~= Seq::<MailEntry>::empty());
        }
        while i < rows.len()
            invariant
                rows@ == db@.entries,
                i <= rows.len(),
                out@ == rows@.take(i as int).filter(in_domain(self.id)),
            decreases rows.len() - i,
        {
            proof {
                assert(rows@.take(i + 1) =~= rows@.take(i as int).push(rows@[i as int]));
                rows@.take(i as int).lemma_filter_push(rows@[i as int], in_domain(self.id));
            }
            if rows[i].maildomain == self.id {
                out.push(rows[i].copied());
            }
            i = i + 1;
        }
        assert(rows@.take(rows.len() as int) =~= rows@);
        out
    }

    /// The entry of this domain called `name`, if any.
    pub fn entry_by_name(&self, db: &MailStore, name: &str) -> (r: Option<MailEntry>)
        ensures
            match r {
                Some(e) => db@.entries.contains(e) && e.maildomain == self.id && e.name@ == name@,
                None => !entry_named(db@, self.id, name@),
            },
    {
        let rows = db.entries();
        let target = String::from_str(name);
        let mut i: usize = 0;
        while i < rows.len()
            invariant
                rows@ == db@.entries,
                target@ == name@,
                i <= rows.len(),
                forall|k: int|
                    0 <= k < i ==> !(rows@[k].maildomain == self.id && #[trigger] rows@[k].name@
                        == name@),
            decreases rows.len() - i,
        {
            if rows[i].maildomain == self.id && rows[i].name == target {
                return Some(rows[i].copied());
            }
            i = i + 1;
        }
        None
    }

    /// A new entry of this domain. Entry names are unique within a domain:
    /// `UniqueViolation` where the name is taken.
    pub fn new_entry(&self, db: &mut MailStore, name: &str, payload: EntryPayload) -> (r:
        QueryResult<MailEntry>)
        requires
            old(db).wf(),
        ensures
            final(db).wf(),
            match r {
                Ok(e) => {
                    &&& !entry_named(old(db)@, self.id, name@)
                    &&& e.id == old(db)@.next_id
                    &&& e.maildomain == self.id
                    &&& e.name@ == name@
                    &&& e.payload == payload
                    &&& final(db)@ == (StoreModel {
                        entries: old(db)@.entries.push(e),
                        next_id: old(db)@.next_id + 1,
                        ..old(db)@
                    })
                },
                Err(e) => {
                    &&& *final(db) == *old(db)
                    &&& (e is UniqueViolation) == entry_named(old(db)@, self.id, name@)
                    &&& (e is IdsExhausted) == (!entry_named(old(db)@, self.id, name@)
                        && old(db)@.next_id == i32::MAX)
                    &&& (e is UniqueViolation || e is IdsExhausted)
                },
            },
    {
        if self.entry_by_name(db, name).is_some() {
            return Err(DbError::UniqueViolation(String::from_str("mailentry.name")));
        }
        let id = match db.fresh_id() {
            Ok(id) => id,
            Err(e) => return Err(e),
        };
        let e = MailEntry { id, maildomain: self.id, name: String::from_str(name), payload };
        proof {
            let v = db@;
            lemma_fresh_id(v.entries, |x: MailEntry| x.id, id as int, e);
            lemma_push_ids(v.entries, |x: MailEntry| x.id, id + 1, e);
            lemma_push_unique(v.entries, |x: MailEntry| x.id, e);
            assert forall|i: int| 0 <= i < v.entries.len() implies (|x: MailEntry|
                (x.maildomain, x.name@))(#[trigger] v.entries[i]) != (|x: MailEntry|
                (x.maildomain, x.name@))(e) by {}
            lemma_push_unique(v.entries, |x: MailEntry| (x.maildomain, x.name@), e);
        }
        db.push_entry(e.copied());
        Ok(e)
    }
}

impl MailEntry {
    /// Writes this entry over the row with its id. `NotFound` where there is
    /// no such row, `UniqueViolation` where another entry of its domain has
    /// its name.
    pub fn save(&self, db: &mut MailStore) -> (r: QueryResult<()>)
        requires
            old(db).wf(),
        ensures
            final(db).wf(),
            match r {
                Ok(_) => {
                    &&& has_entry_id(old(db)@, self.id)
                    &&& !other_entry_named(old(db)@, *self)
                    &&& final(db)@ == (StoreModel {
                        entries: old(db)@.entries.update(entry_index(old(db)@, self.id), *self),
                        ..old(db)@
                    })
                },
                Err(e) => {
                    &&& *final(db) == *old(db)
                    &&& (e is NotFound) == !has_entry_id(old(db)@, self.id)
                    &&& (e is UniqueViolation) == (has_entry_id(old(db)@, self.id)
                        && other_entry_named(old(db)@, *self))
                    &&& (e is NotFound || e is UniqueViolation)
                },
            },
    {
        let rows = db.entries();
        let n = rows.len();
        let mut at: Option<usize> = None;
        let mut clash = false;
        let mut i: usize = 0;
        while i < n
            invariant
                rows@ == db@.entries,
                n == rows.len(),
                i <= n,
                match at {
                    Some(k) => k < i && rows@[k as int].id == self.id,
                    None => forall|k: int| 0 <= k < i ==> #[trigger] rows@[k].id != self.id,
                },
                clash == exists|k: int|
                    0 <= k < i && rows@[k].id != self.id && rows@[k].maildomain == self.maildomain
                        && #[trigger] rows@[k].name@ == self.name@,
            decreases n - i,
        {
            if rows[i].id == self.id {
                at = Some(i);
            } else if rows[i].maildomain == self.maildomain && rows[i].name == self.name {
                clash = true;
            }
            i = i + 1;
        }
        match at {
            None => Err(DbError::NotFound),
            Some(k) => {
                if clash {
                    return Err(DbError::UniqueViolation(String::from_str("mailentry.name")));
                }
                proof {
                    let v = db@;
                    lemma_entry_rows(v);
                    assert(entry_index(v, self.id) == k);
                    lemma_update_ids(v.entries, |x: MailEntry| x.id, v.next_id, k as int, *self);
                    lemma_update_unique(v.entries, |x: MailEntry| x.id, k as int, *self);
                    lemma_update_unique(
                        v.entries,
                        |x: MailEntry| (x.maildomain, x.name@),
                        k as int,
                        *self,
                    );
                }
                db.set_entry(k, self.copied());
                Ok(())
            },
        }
    }

    /// Removes the row with this entry's id; `NotFound` where there is none.
    pub fn delete(&self, db: &mut MailStore) -> (r: QueryResult<()>)
        requires
            old(db).wf(),
        ensures
            final(db).wf(),
            match r {
                Ok(_) => {
                    &&& has_entry_id(old(db)@, self.id)
                    &&& final(db)@ == (StoreModel {
                        entries: old(db)@.entries.remove(entry_index(old(db)@, self.id)),
                        ..old(db)@
                    })
                },
                Err(e) => *final(db) == *old(db) && e is NotFound && !has_entry_id(
                    old(db)@,
                    self.id,
                ),
            },
    {
        let rows = db.entries();
        let mut i: usize = 0;
        while i < rows.len()
            invariant
                rows@ == db@.entries,
                db.wf(),
                *db == *old(db),
                i <= rows.len(),
                forall|k: int| 0 <= k < i ==> #[trigger] rows@[k].id != self.id,
            decreases rows.len() - i,
        {
            if rows[i].id == self.id {
                proof {
                    lemma_entry_rows(db@);
                    assert(entry_index(db@, self.id) == i);
                }
                db.remove_entry(i);
                return Ok(());
            }
            i = i + 1;
        }
        Err(DbError::NotFound)
    }
}

impl AllowDenyList {
    /// A new sender rule of domain `maildomain`.
    pub fn create(db: &mut MailStore, maildomain: i32, allow: bool, value: &str) -> (r: QueryResult<
        Self,
    >)
        requires
            old(db).wf(),
        ensures
            final(db).wf(),
            match r {
                Ok(a) => {
                    &&& a.id == old(db)@.next_id
                    &&& a.maildomain == maildomain
                    &&& a.allow == allow
                    &&& a.value@ == value@
                    &&& final(db)@ == (StoreModel {
                        allow_deny: old(db)@.allow_deny.push(a),
                        next_id: old(db)@.next_id + 1,
                        ..old(db)@
                    })
                },
                Err(e) => *final(db) == *old(db) && e is IdsExhausted && old(db)@.next_id
                    == i32::MAX,
            },
    {
        let id = match db.fresh_id() {
            Ok(id) => id,
            Err(e) => return Err(e),
        };
        let a = AllowDenyList { id, maildomain, allow, value: String::from_str(value) };
        proof {
            let v = db@;
            lemma_fresh_id(v.allow_deny, |x: AllowDenyList| x.id, id as int, a);
            lemma_push_ids(v.allow_deny, |x: AllowDenyList| x.id, id + 1, a);
            lemma_push_unique(v.allow_deny, |x: AllowDenyList| x.id, a);
        }
        db.push_rule(a.copied());
        Ok(a)
    }

    /// The values of the rules of domain `maildomain` with the given `allow`.
    fn values(db: &MailStore, maildomain: i32, allow: bool) -> (r: Vec<String>)
        ensures
            r@.map_values(|s: String| s@) == db@.allow_deny.filter(rules_of(maildomain, allow)).map_values(
                |a: AllowDenyList| a.value@,
            ),
    {
        let rows = db.allow_deny();
        let ghost keep = rules_of(maildomain, allow);
        let mut out: Vec<String> = Vec::new();
        let mut i: usize = 0;
        proof {
            reveal(Seq::filter);
            assert(rows@.take(0) =~= Seq::<AllowDenyList>::empty());
        }
        while i < rows.len()
            invariant
                rows@ == db@.allow_deny,
                i <= rows.len(),
                keep == rules_of(maildomain, allow),
                out@.map_values(|s: String| s@) == rows@.take(i as int).filter(keep).map_values(
                    |a: AllowDenyList| a.value@,
                ),
            decreases rows.len() - i,
        {
            proof {
                assert(rows@.take(i + 1) =~= rows@.take(i as int).push(rows@[i as int]));
                rows@.take(i as int).lemma_filter_push(rows@[i as int], keep);
            }
            if rows[i].maildomain == maildomain && rows[i].allow == allow {
                let ghost was = out@;
                out.push(rows[i].value.clone());
                assert(out@.map_values(|s: String| s@) =~= was.map_values(|s: String| s@).push(
                    rows@[i as int].value@,
                ));
                assert(rows@.take(i + 1).filter(keep).map_values(|a: AllowDenyList| a.value@)
                    =~= rows@.take(i as int).filter(keep).map_values(|a: AllowDenyList| a.value@).push(
                    rows@[i as int].value@,
                ));
            }
            i = i + 1;
        }
        assert(rows@.take(rows.len() as int) =~= rows@);
        out
    }

    /// The senders that domain `maildomain` allows.
    pub fn all_allows(db: &MailStore, maildomain: i32) -> (r: Vec<String>)
        ensures
            r@.map_values(|s: String| s@) == db@.allow_deny.filter(rules_of(maildomain, true)).map_values(
                |a: AllowDenyList| a.value@,
            ),
    {
        AllowDenyList::values(db, maildomain, true)
    }

    /// The senders that domain `maildomain` denies.
    pub fn all_denys(db: &MailStore, maildomain: i32) -> (r: Vec<String>)
        ensures
            r@.map_values(|s: String| s@) == db@.allow_deny.filter(rules_of(maildomain, false)).map_values(
                |a: AllowDenyList| a.value@,
            ),
    {
        AllowDenyList::values(db, maildomain, false)
    }
}

impl MailAuthToken {
    /// The stored token whose value is `token`, if any.
    pub fn by_token(db: &MailStore, token: &str) -> (r: Option<Self>)
        ensures
            match r {
                Some(t) => db@.tokens.contains(t) && t.token@ == token@,
                None => !token_stored(db@, token@),
            },
    {
        let rows = db.tokens();
        let target = String::from_str(token);
        let mut i: usize = 0;
        while i < rows.len()
            invariant
                rows@ == db@.tokens,
                target@ == token@,
                i <= rows.len(),
                forall|k: int| 0 <= k < i ==> #[trigger] rows@[k].token@ != token@,
            decreases rows.len() - i,
        {
            if rows[i].token == target {
                return Some(rows[i].copied());
            }
            i = i + 1;
        }
        None
    }

    /// The tokens of user `owner`.
    pub fn by_owner(db: &MailStore, owner: i32) -> (r: Vec<Self>)
        ensures
            r@ == db@.tokens.filter(owned_tokens(owner)),
    {
        let rows = db.tokens();
        let mut out: Vec<MailAuthToken> = Vec::new();
        let mut i: usize = 0;
        proof {
            reveal(Seq::filter);
            assert(rows@.take(0) =~= Seq::<MailAuthToken>::empty());
        }
        while i < rows.len()
            invariant
                rows@ == db@.tokens,
                i <= rows.len(),
                out@ == rows@.take(i as int).filter(owned_tokens(owner)),
            decreases rows.len() - i,
        {
            proof {
                assert(rows@.take(i + 1) =~= rows@.take(i as int).push(rows@[i as int]));
                rows@.take(i as int).lemma_filter_push(rows@[i as int], owned_tokens(owner));
            }
            if rows[i].mailuser == owner {
                out.push(rows[i].copied());
            }
            i = i + 1;
        }
        assert(rows@.take(rows.len() as int) =~= rows@);
        out
    }

    /// A new token of user `owner` with value `token`. Token values are
    /// unique: `UniqueViolation` where the value is taken.
    pub fn create_with_token(db: &mut MailStore, owner: i32, label: &str, token: String) -> (r:
        QueryResult<Self>)
        requires
            old(db).wf(),
        ensures
            final(db).wf(),
            match r {
                Ok(t) => {
                    &&& !token_stored(old(db)@, token@)
                    &&& t.id == old(db)@.next_id
                    &&& t.mailuser == owner
                    &&& t.token == token
                    &&& t.label@ == label@
                    &&& final(db)@ == (StoreModel {
                        tokens: old(db)@.tokens.push(t),
                        next_id: old(db)@.next_id + 1,
                        ..old(db)@
                    })
                },
                Err(e) => {
                    &&& *final(db) == *old(db)
                    &&& (e is UniqueViolation) == token_stored(old(db)@, token@)
                    &&& (e is IdsExhausted) == (!token_stored(old(db)@, token@) && old(db)@.next_id
                        == i32::MAX)
                    &&& (e is UniqueViolation || e is IdsExhausted)
                },
            },
    {
        if MailAuthToken::by_token(db, token.as_str()).is_some() {
            return Err(DbError::UniqueViolation(String::from_str("mailauthtoken.token")));
        }
        let id = match db.fresh_id() {
            Ok(id) => id,
            Err(e) => return Err(e),
        };
        let t = MailAuthToken { id, mailuser: owner, token, label: String::from_str(label) };
        proof {
            let v = db@;
            lemma_fresh_id(v.tokens, |x: MailAuthToken| x.id, id as int, t);
            lemma_push_ids(v.tokens, |x: MailAuthToken| x.id, id + 1, t);
            lemma_push_unique(v.tokens, |x: MailAuthToken| x.id, t);
            assert forall|i: int| 0 <= i < v.tokens.len() implies (|x: MailAuthToken| x.token@)(
                #[trigger] v.tokens[i],
            ) != (|x: MailAuthToken| x.token@)(t) by {}
            lemma_push_unique(v.tokens, |x: MailAuthToken| x.token@, t);
        }
        db.push_token(t.copied());
        Ok(t)
    }

    /// Removes the row with this token's id; `NotFound` where there is none.
    pub fn delete_self(self, db: &mut MailStore) -> (r: QueryResult<()>)
        requires
            old(db).wf(),
        ensures
            final(db).wf(),
            match r {
                Ok(_) => {
                    &&& has_token_id(old(db)@, self.id)
                    &&& final(db)@ == (StoreModel {
                        tokens: old(db)@.tokens.remove(token_index(old(db)@, self.id)),
                        ..old(db)@
                    })
                },
                Err(e) => *final(db) == *old(db) && e is NotFound && !has_token_id(
                    old(db)@,
                    self.id,
                ),
            },
    {
        let rows = db.tokens();
        let mut i: usize = 0;
        while i < rows.len()
            invariant
                rows@ == db@.tokens,
                db.wf(),
                *db == *old(db),
                i <= rows.len(),
                forall|k: int| 0 <= k < i ==> #[trigger] rows@[k].id != self.id,
            decreases rows.len() - i,
        {
            if rows[i].id == self.id {
                proof {
                    lemma_token_key_rows(db@);
                    assert(token_index(db@, self.id) == i);
                }
                db.remove_token(i);
                return Ok(());
            }
            i = i + 1;
        }
        Err(DbError::NotFound)
    }
}

impl MailDomainKey {
    /// The keys of domain `maildomain`.
    pub fn by_domain(db: &MailStore, maildomain: i32) -> (r: Vec<Self>)
        ensures
            r@ == db@.keys.filter(keys_of(maildomain)),
    {
        let rows = db.keys();
        let mut out: Vec<MailDomainKey> = Vec::new();
        let mut i: usize = 0;
        proof {
            reveal(Seq::filter);
            assert(rows@.take(0) =~= Seq::<MailDomainKey>::empty());
        }
        while i < rows.len()
            invariant
                rows@ == db@.keys,
                i <= rows.len(),
                out@ == rows@.take(i as int).filter(keys_of(maildomain)),
            decreases rows.len() - i,
        {
            proof {
                assert(rows@.take(i + 1) =~= rows@.take(i as int).push(rows@[i as int]));
                rows@.take(i as int).lemma_filter_push(rows@[i as int], keys_of(maildomain));
            }
            if rows[i].maildomain == maildomain {
                out.push(rows[i].copied());
            }
            i = i + 1;
        }
        assert(rows@.take(rows.len() as int) =~= rows@);
        out
    }

    /// The key of domain `maildomain` with selector `selector`, if any.
    pub fn by_domain_and_selector(db: &MailStore, maildomain: i32, selector: &str) -> (r: Option<
        Self,
    >)
        ensures
            match r {
                Some(k) => db@.keys.contains(k) && k.maildomain == maildomain && k.selector@
                    == selector@,
                None => !selector_taken(db@, maildomain, selector@),
            },
    {
        let rows = db.keys();
        let target = String::from_str(selector);
        let mut i: usize = 0;
        while i < rows.len()
            invariant
                rows@ == db@.keys,
                target@ == selector@,
                i <= rows.len(),
                forall|k: int|
                    0 <= k < i ==> !(rows@[k].maildomain == maildomain
                        && #[trigger] rows@[k].selector@ == selector@),
            decreases rows.len() - i,
        {
            if rows[i].maildomain == maildomain && rows[i].selector == target {
                return Some(rows[i].copied());
            }
            i = i + 1;
        }
        None
    }

    /// A new key of domain `maildomain` holding the given key material.
    /// Selectors are unique within a domain: `UniqueViolation` where
    /// `selector` is taken.
    pub fn create_with_material(
        db: &mut MailStore,
        maildomain: i32,
        selector: &str,
        privkey: String,
        pubkey: String,
        signing: bool,
    ) -> (r: QueryResult<Self>)
        requires
            old(db).wf(),
        ensures
            final(db).wf(),
            match r {
                Ok(k) => {
                    &&& !selector_taken(old(db)@, maildomain, selector@)
                    &&& k.id == old(db)@.next_id
                    &&& k.maildomain == maildomain
                    &&& k.selector@ == selector@
                    &&& k.privkey == privkey
                    &&& k.pubkey == pubkey
                    &&& k.signing == signing
                    &&& final(db)@ == (StoreModel {
                        keys: old(db)@.keys.push(k),
                        next_id: old(db)@.next_id + 1,
                        ..old(db)@
                    })
                },
                Err(e) => {
                    &&& *final(db) == *old(db)
                    &&& (e is UniqueViolation) == selector_taken(old(db)@, maildomain, selector@)
                    &&& (e is IdsExhausted) == (!selector_taken(old(db)@, maildomain, selector@)
                        && old(db)@.next_id == i32::MAX)
                    &&& (e is UniqueViolation || e is IdsExhausted)
                },
            },
    {
        if MailDomainKey::by_domain_and_selector(db, maildomain, selector).is_some() {
            return Err(DbError::UniqueViolation(String::from_str("maildomainkey.selector")));
        }
        let id = match db.fresh_id() {
            Ok(id) => id,
            Err(e) => return Err(e),
        };
        let k = MailDomainKey {
            id,
            maildomain,
            selector: String::from_str(selector),
            privkey,
            pubkey,
            signing,
        };
        proof {
            let v = db@;
            lemma_fresh_id(v.keys, |x: MailDomainKey| x.id, id as int, k);
            lemma_push_ids(v.keys, |x: MailDomainKey| x.id, id + 1, k);
            lemma_push_unique(v.keys, |x: MailDomainKey| x.id, k);
            assert forall|i: int| 0 <= i < v.keys.len() implies (|x: MailDomainKey|
                (x.maildomain, x.selector@))(#[trigger] v.keys[i]) != (|x: MailDomainKey|
                (x.maildomain, x.selector@))(k) by {}
            lemma_push_unique(v.keys, |x: MailDomainKey| (x.maildomain, x.selector@), k);
        }
        db.push_key(k.copied());
        Ok(k)
    }

    /// Writes this key's selector and signing flag over the row with its id;
    /// the key material stays. `NotFound` where there is no such row,
    /// `UniqueViolation` where another key of the domain has the selector.
    pub fn save(&self, db: &mut MailStore) -> (r: QueryResult<()>)
        requires
            old(db).wf(),
        ensures
            final(db).wf(),
            match r {
                Ok(_) => {
                    let i = key_index(old(db)@, self.id);
                    &&& has_key_id(old(db)@, self.id)
                    &&& !other_key_selector(
                        old(db)@,
                        MailDomainKey { maildomain: old(db)@.keys[i].maildomain, ..*self },
                    )
                    &&& final(db)@ == (StoreModel {
                        keys: old(db)@.keys.update(
                            i,
                            MailDomainKey {
                                selector: self.selector,
                                signing: self.signing,
                                ..old(db)@.keys[i]
                            },
                        ),
                        ..old(db)@
                    })
                },
                Err(e) => {
                    &&& *final(db) == *old(db)
                    &&& (e is NotFound) == !has_key_id(old(db)@, self.id)
                    &&& (e is UniqueViolation) == (has_key_id(old(db)@, self.id)
                        && other_key_selector(
                        old(db)@,
                        MailDomainKey {
                            maildomain: old(db)@.keys[key_index(old(db)@, self.id)].maildomain,
                            ..*self
                        },
                    ))
                    &&& (e is NotFound || e is UniqueViolation)
                },
            },
    {
        let rows = db.keys();
        let n = rows.len();
        let mut at: Option<usize> = None;
        let mut i: usize = 0;
        while i < n
            invariant
                rows@ == db@.keys,
                n == rows.len(),
                i <= n,
                match at {
                    Some(k) => k < i && rows@[k as int].id == self.id,
                    None => forall|k: int| 0 <= k < i ==> #[trigger] rows@[k].id != self.id,
                },
            decreases n - i,
        {
            if at.is_none() && rows[i].id == self.id {
                at = Some(i);
            }
            i = i + 1;
        }
        let k = match at {
            None => return Err(DbError::NotFound),
            Some(k) => k,
        };
        proof {
            lemma_token_key_rows(db@);
            assert(key_index(db@, self.id) == k);
        }
        let domain = rows[k].maildomain;
        let mut clash = false;
        let mut j: usize = 0;
        while j < n
            invariant
                rows@ == db@.keys,
                n == rows.len(),
                j <= n,
                clash == exists|x: int|
                    0 <= x < j && rows@[x].id != self.id && rows@[x].maildomain == domain
                        && #[trigger] rows@[x].selector@ == self.selector@,
            decreases n - j,
        {
            if rows[j].id != self.id && rows[j].maildomain == domain && rows[j].selector
                == self.selector {
                clash = true;
            }
            j = j + 1;
        }
        if clash {
            return Err(DbError::UniqueViolation(String::from_str("maildomainkey.selector")));
        }
        let old_row = &rows[k];
        let row = MailDomainKey {
            id: old_row.id,
            maildomain: old_row.maildomain,
            selector: self.selector.clone(),
            privkey: old_row.privkey.clone(),
            pubkey: old_row.pubkey.clone(),
            signing: self.signing,
        };
        proof {
            let v = db@;
            lemma_update_ids(v.keys, |x: MailDomainKey| x.id, v.next_id, k as int, row);
            lemma_update_unique(v.keys, |x: MailDomainKey| x.id, k as int, row);
            lemma_update_unique(
                v.keys,
                |x: MailDomainKey| (x.maildomain, x.selector@),
                k as int,
                row,
            );
        }
        db.set_key(k, row);
        Ok(())
    }

    /// Removes the row with this key's id; `NotFound` where there is none.
    pub fn delete_self(self, db: &mut MailStore) -> (r: QueryResult<()>)
        requires
            old(db).wf(),
        ensures
            final(db).wf(),
            match r {
                Ok(_) => {
                    &&& has_key_id(old(db)@, self.id)
                    &&& final(db)@ == (StoreModel {
                        keys: old(db)@.keys.remove(key_index(old(db)@, self.id)),
                        ..old(db)@
                    })
                },
                Err(e) => *final(db) == *old(db) && e is NotFound && !has_key_id(
                    old(db)@,
                    self.id,
                ),
            },
    {
        let rows = db.keys();
        let mut i: usize = 0;
        while i < rows.len()
            invariant
                rows@ == db@.keys,
                db.wf(),
                *db == *old(db),
                i <= rows.len(),
                forall|k: int| 0 <= k < i ==> #[trigger] rows@[k].id != self.id,
            decreases rows.len() - i,
        {
            if rows[i].id == self.id {
                proof {
                    lemma_token_key_rows(db@);
                    assert(key_index(db@, self.id) == i);
                }
                db.remove_key(i);
                return Ok(());
            }
            i = i + 1;
        }
        Err(DbError::NotFound)
    }
}

/// The public record of a signing key: the domain-key TXT record that
/// publishes `pubkey`.
pub open spec fn dkim_record(pubkey: Seq<char>) -> Seq<char> {
    "v=DKIM1; k=rsa; p="@ + pubkey
}

impl MailAuthToken {
    /// A new token of user `owner`, with a fresh random value.
    pub fn create(db: &mut MailStore, owner: i32, label: &str) -> (r: QueryResult<Self>)
        requires
            old(db).wf(),
        ensures
            final(db).wf(),
            match r {
                Ok(t) => {
                    &&& util::is_token_value(t.token@)
                    &&& !token_stored(old(db)@, t.token@)
                    &&& t.id == old(db)@.next_id
                    &&& t.mailuser == owner
                    &&& t.label@ == label@
                    &&& final(db)@ == (StoreModel {
                        tokens: old(db)@.tokens.push(t),
                        next_id: old(db)@.next_id + 1,
                        ..old(db)@
                    })
                },
                Err(e) => *final(db) == *old(db) && (e is UniqueViolation || (e is IdsExhausted
                    && old(db)@.next_id == i32::MAX)),
            },
    {
        let value = new_token_value();
        MailAuthToken::create_with_token(db, owner, label, value)
    }
}

impl MailDomainKey {
    /// The domain-key TXT record that publishes this key.
    pub fn render_pubkey(&self) -> (r: String)
        ensures
            r@ == dkim_record(self.pubkey@),
    {
        let mut out = String::from_str("v=DKIM1; k=rsa; p=");
        out.append(self.pubkey.as_str());
        out
    }

    /// A new key of domain `maildomain` with fresh key material. Selectors are
    /// unique within a domain: `UniqueViolation` where `selector` is taken, and
    /// then no key is generated.
    pub fn create(db: &mut MailStore, maildomain: i32, selector: &str, signing: bool) -> (r:
        QueryResult<Self>)
        requires
            old(db).wf(),
        ensures
            final(db).wf(),
            match r {
                Ok(k) => {
                    &&& !selector_taken(old(db)@, maildomain, selector@)
                    &&& k.id == old(db)@.next_id
                    &&& k.maildomain == maildomain
                    &&& k.selector@ == selector@
                    &&& k.signing == signing
                    &&& exists|der: Seq<u8>| k.pubkey@ == #[trigger] util::base64_standard(der)
                    &&& final(db)@ == (StoreModel {
                        keys: old(db)@.keys.push(k),
                        next_id: old(db)@.next_id + 1,
                        ..old(db)@
                    })
                },
                Err(e) => {
                    &&& *final(db) == *old(db)
                    &&& (e is UniqueViolation) == selector_taken(old(db)@, maildomain, selector@)
                    &&& (e is IdsExhausted) ==> old(db)@.next_id == i32::MAX
                    &&& (e is UniqueViolation || e is IdsExhausted || e is KeyMaterial)
                },
            },
    {
        if MailDomainKey::by_domain_and_selector(db, maildomain, selector).is_some() {
            return Err(DbError::UniqueViolation(String::from_str("maildomainkey.selector")));
        }
        let (privkey, pubkey) = match create_dkim_pair() {
            Ok(pair) => pair,
            Err(e) => return Err(e),
        };
        MailDomainKey::create_with_material(db, maildomain, selector, privkey, pubkey, signing)
    }
}

impl MailDomain {
    /// A new login (or, with `account`, account) entry whose secret is
    /// `password` encoded for storage. A taken name is a `UniqueViolation`,
    /// then exhausted ids are `IdsExhausted`, then a failed encoding is
    /// `CredentialEncoding`.
    pub fn new_login(&self, db: &mut MailStore, name: &str, password: &str, account: bool) -> (r:
        QueryResult<MailEntry>)
        requires
            old(db).wf(),
        ensures
            final(db).wf(),
            match r {
                Ok(e) => {
                    &&& !entry_named(old(db)@, self.id, name@)
                    &&& e.maildomain == self.id
                    &&& e.name@ == name@
                    &&& kind_of(e.payload) == (if account {
                        MailEntryKind::Account
                    } else {
                        MailEntryKind::Login
                    })
                    &&& util::encodes(password@, payload_text(e.payload)@)
                    &&& final(db)@ == (StoreModel {
                        entries: old(db)@.entries.push(e),
                        next_id: old(db)@.next_id + 1,
                        ..old(db)@
                    })
                },
                Err(e) => {
                    &&& *final(db) == *old(db)
                    &&& (e is UniqueViolation) == entry_named(old(db)@, self.id, name@)
                    &&& (e is IdsExhausted) == (!entry_named(old(db)@, self.id, name@)
                        && old(db)@.next_id == i32::MAX)
                    &&& (e is CredentialEncoding) ==> util::encoding_may_fail(password@)
                    &&& (e is UniqueViolation || e is IdsExhausted || e is CredentialEncoding)
                },
            },
    {
        if self.entry_by_name(db, name).is_some() {
            return Err(DbError::UniqueViolation(String::from_str("mailentry.name")));
        }
        if !db.ids_left() {
            return Err(DbError::IdsExhausted);
        }
        let secret = match encode_password(password) {
            Some(s) => s,
            None => return Err(DbError::CredentialEncoding),
        };
        let payload = if account {
            EntryPayload::Account { password: secret }
        } else {
            EntryPayload::Login { password: secret }
        };
        self.new_entry(db, name, payload)
    }

    /// A new alias entry forwarding to the members of `expansion`.
    pub fn new_alias(&self, db: &mut MailStore, name: &str, expansion: &str) -> (r: QueryResult<
        MailEntry,
    >)
        requires
            old(db).wf(),
        ensures
            final(db).wf(),
            r is Ok ==> !entry_named(old(db)@, self.id, name@),
            match r {
                Ok(e) => e.payload matches EntryPayload::Alias { expansion: x } && x@
                    == expansion@ && e.name@ == name@ && e.maildomain == self.id && final(db)@
                    == (StoreModel {
                    entries: old(db)@.entries.push(e),
                    next_id: old(db)@.next_id + 1,
                    ..old(db)@
                }),
                Err(e) => {
                    &&& *final(db) == *old(db)
                    &&& (e is UniqueViolation) == entry_named(old(db)@, self.id, name@)
                    &&& (e is IdsExhausted) == (!entry_named(old(db)@, self.id, name@)
                        && old(db)@.next_id == i32::MAX)
                    &&& (e is UniqueViolation || e is IdsExhausted)
                },
            },
    {
        self.new_entry(db, name, EntryPayload::Alias { expansion: String::from_str(expansion) })
    }

    /// A new mailing list entry delivering to the members of `members`.
    pub fn new_list(&self, db: &mut MailStore, name: &str, members: &str) -> (r: QueryResult<
        MailEntry,
    >)
        requires
            old(db).wf(),
        ensures
            final(db).wf(),
            r is Ok ==> !entry_named(old(db)@, self.id, name@),
            match r {
                Ok(e) => e.payload matches EntryPayload::List { members: x } && x@ == members@
                    && e.name@ == name@ && e.maildomain == self.id && final(db)@ == (StoreModel {
                    entries: old(db)@.entries.push(e),
                    next_id: old(db)@.next_id + 1,
                    ..old(db)@
                }),
                Err(e) => {
                    &&& *final(db) == *old(db)
                    &&& (e is UniqueViolation) == entry_named(old(db)@, self.id, name@)
                    &&& (e is IdsExhausted) == (!entry_named(old(db)@, self.id, name@)
                        && old(db)@.next_id == i32::MAX)
                    &&& (e is UniqueViolation || e is IdsExhausted)
                },
            },
    {
        self.new_entry(db, name, EntryPayload::List { members: String::from_str(members) })
    }

    /// A new bouncer entry, rejecting mail with `reason`.
    pub fn new_bouncer(&self, db: &mut MailStore, name: &str, reason: &str) -> (r: QueryResult<
        MailEntry,
    >)
        requires
            old(db).wf(),
        ensures
            final(db).wf(),
            r is Ok ==> !entry_named(old(db)@, self.id, name@),
            match r {
                Ok(e) => e.payload matches EntryPayload::Bouncer { reason: x } && x@ == reason@
                    && e.name@ == name@ && e.maildomain == self.id && final(db)@ == (StoreModel {
                    entries: old(db)@.entries.push(e),
                    next_id: old(db)@.next_id + 1,
                    ..old(db)@
                }),
                Err(e) => {
                    &&& *final(db) == *old(db)
                    &&& (e is UniqueViolation) == entry_named(old(db)@, self.id, name@)
                    &&& (e is IdsExhausted) == (!entry_named(old(db)@, self.id, name@)
                        && old(db)@.next_id == i32::MAX)
                    &&& (e is UniqueViolation || e is IdsExhausted)
                },
            },
    {
        self.new_entry(db, name, EntryPayload::Bouncer { reason: String::from_str(reason) })
    }

    /// A new blackhole entry, discarding mail, with `reason`.
    pub fn new_blackhole(&self, db: &mut MailStore, name: &str, reason: &str) -> (r: QueryResult<
        MailEntry,
    >)
        requires
            old(db).wf(),
        ensures
            final(db).wf(),
            r is Ok ==> !entry_named(old(db)@, self.id, name@),
            match r {
                Ok(e) => e.payload matches EntryPayload::Blackhole { reason: x } && x@ == reason@
                    && e.name@ == name@ && e.maildomain == self.id && final(db)@ == (StoreModel {
                    entries: old(db)@.entries.push(e),
                    next_id: old(db)@.next_id + 1,
                    ..old(db)@
                }),
                Err(e) => {
                    &&& *final(db) == *old(db)
                    &&& (e is UniqueViolation) == entry_named(old(db)@, self.id, name@)
                    &&& (e is IdsExhausted) == (!entry_named(old(db)@, self.id, name@)
                        && old(db)@.next_id == i32::MAX)
                    &&& (e is UniqueViolation || e is IdsExhausted)
                },
            },
    {
        self.new_entry(db, name, EntryPayload::Blackhole { reason: String::from_str(reason) })
    }
}

impl MailEntry {
    /// Replaces the secret of a login or account with `password` encoded for
    /// storage; `CredentialEncoding`, and no change, where encoding fails.
    pub fn set_password(&mut self, password: &str) -> (r: QueryResult<()>)
        requires
            kind_of(old(self).payload) == MailEntryKind::Login || kind_of(old(self).payload)
                == MailEntryKind::Account,
        ensures
            match r {
                Ok(_) => {
                    &&& final(self).id == old(self).id
                    &&& final(self).maildomain == old(self).maildomain
                    &&& final(self).name == old(self).name
                    &&& kind_of(final(self).payload) == kind_of(old(self).payload)
                    &&& util::encodes(password@, payload_text(final(self).payload)@)
                },
                Err(e) => e is CredentialEncoding && *final(self) == *old(self)
                    && util::encoding_may_fail(password@),
            },
    {
        let secret = match encode_password(password) {
            Some(s) => s,
            None => return Err(DbError::CredentialEncoding),
        };
        proof {
            reveal_strlit("{ARGON2ID}");
        }
        let kind = self.kind();
        self.payload = EntryPayload::with_kind(kind, secret);
        Ok(())
    }
}

} // verus!
