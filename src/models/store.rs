//! The store: the rows of every relation, and the uniqueness constraints that
//! hold between them.

use vstd::prelude::*;

use super::{
    AllowDenyList, DbError, MailAuthToken, MailDomain, MailDomainKey, MailEntry, MailUser,
    QueryResult,
};

verus! {

/// The rows of every relation, and the id the next row will get.
pub struct StoreModel {
    pub users: Seq<MailUser>,
    pub domains: Seq<MailDomain>,
    pub entries: Seq<MailEntry>,
    pub allow_deny: Seq<AllowDenyList>,
    pub tokens: Seq<MailAuthToken>,
    pub keys: Seq<MailDomainKey>,
    pub next_id: int,
}

/// Every row of `rows` has an id from 1 below `next`.
pub open spec fn ids_below<T>(rows: Seq<T>, id: spec_fn(T) -> i32, next: int) -> bool {
    forall|i: int| 0 <= i < rows.len() ==> 1 <= #[trigger] id(rows[i]) < next
}

/// No two rows of `rows` share a key.
pub open spec fn unique_by<T, K>(rows: Seq<T>, key: spec_fn(T) -> K) -> bool {
    forall|i: int, j: int| 0 <= i < j < rows.len() ==> #[trigger] key(rows[i]) != #[trigger] key(
        rows[j],
    )
}

proof fn lemma_remove_unique<T, K>(rows: Seq<T>, key: spec_fn(T) -> K, i: int)
    requires
        unique_by(rows, key),
        0 <= i < rows.len(),
    ensures
        unique_by(rows.remove(i), key),
{
    let r = rows.remove(i);
    assert forall|a: int, b: int| 0 <= a < b < r.len() implies #[trigger] key(r[a]) != #[trigger] key(
        r[b],
    ) by {
        let oa = if a < i { a } else { a + 1 };
        let ob = if b < i { b } else { b + 1 };
        assert(r[a] == rows[oa] && r[b] == rows[ob]);
        assert(key(rows[oa]) != key(rows[ob]));
    }
}

proof fn lemma_remove_ids<T>(rows: Seq<T>, id: spec_fn(T) -> i32, next: int, i: int)
    requires
        ids_below(rows, id, next),
        0 <= i < rows.len(),
    ensures
        ids_below(rows.remove(i), id, next),
{
    let r = rows.remove(i);
    assert forall|a: int| 0 <= a < r.len() implies 1 <= #[trigger] id(r[a]) < next by {
        let oa = if a < i { a } else { a + 1 };
        assert(r[a] == rows[oa]);
    }
}

/// Two rows with the same key are the same row.
pub proof fn lemma_unique_at<T, K>(rows: Seq<T>, key: spec_fn(T) -> K, i: int, j: int)
    requires
        unique_by(rows, key),
        0 <= i < rows.len(),
        0 <= j < rows.len(),
        key(rows[i]) == key(rows[j]),
    ensures
        i == j,
{
    if i < j {
        assert(key(rows[i]) != key(rows[j]));
    } else if j < i {
        assert(key(rows[j]) != key(rows[i]));
    }
}

pub proof fn lemma_push_unique<T, K>(rows: Seq<T>, key: spec_fn(T) -> K, row: T)
    requires
        unique_by(rows, key),
        forall|i: int| 0 <= i < rows.len() ==> key(#[trigger] rows[i]) != key(row),
    ensures
        unique_by(rows.push(row), key),
{
    let r = rows.push(row);
    assert forall|a: int, b: int| 0 <= a < b < r.len() implies #[trigger] key(r[a]) != #[trigger] key(
        r[b],
    ) by {
        assert(r[a] == rows[a]);
        if b < rows.len() {
            assert(r[b] == rows[b]);
        }
    }
}

pub proof fn lemma_push_ids<T>(rows: Seq<T>, id: spec_fn(T) -> i32, next: int, row: T)
    requires
        ids_below(rows, id, next),
        1 <= id(row) < next,
    ensures
        ids_below(rows.push(row), id, next),
{
    let r = rows.push(row);
    assert forall|a: int| 0 <= a < r.len() implies 1 <= #[trigger] id(r[a]) < next by {
        if a < rows.len() {
            assert(r[a] == rows[a]);
        }
    }
}

/// A row whose id is the next one differs in id from every row.
pub proof fn lemma_fresh_id<T>(rows: Seq<T>, id: spec_fn(T) -> i32, next: int, row: T)
    requires
        ids_below(rows, id, next),
        id(row) == next,
    ensures
        forall|i: int| 0 <= i < rows.len() ==> id(#[trigger] rows[i]) != id(row),
        ids_below(rows, id, next + 1),
{
}

pub proof fn lemma_update_unique<T, K>(rows: Seq<T>, key: spec_fn(T) -> K, i: int, row: T)
    requires
        unique_by(rows, key),
        0 <= i < rows.len(),
        forall|k: int| 0 <= k < rows.len() && k != i ==> key(#[trigger] rows[k]) != key(row),
    ensures
        unique_by(rows.update(i, row), key),
{
    let r = rows.update(i, row);
    assert forall|a: int, b: int| 0 <= a < b < r.len() implies #[trigger] key(r[a]) != #[trigger] key(
        r[b],
    ) by {
        if a != i {
            assert(r[a] == rows[a]);
        }
        if b != i {
            assert(r[b] == rows[b]);
        }
    }
}

pub proof fn lemma_update_ids<T>(rows: Seq<T>, id: spec_fn(T) -> i32, next: int, i: int, row: T)
    requires
        ids_below(rows, id, next),
        0 <= i < rows.len(),
        1 <= id(row) < next,
    ensures
        ids_below(rows.update(i, row), id, next),
{
    let r = rows.update(i, row);
    assert forall|a: int| 0 <= a < r.len() implies 1 <= #[trigger] id(r[a]) < next by {
        if a != i {
            assert(r[a] == rows[a]);
        }
    }
}

impl StoreModel {
    /// The constraints of the schema: ids unique and handed out below
    /// `next_id`; usernames, domain names and token values unique; entry names
    /// and key selectors unique within their domain.
    pub open spec fn wf(self) -> bool {
        &&& 1 <= self.next_id <= i32::MAX
        &&& ids_below(self.users, |u: MailUser| u.id, self.next_id)
        &&& ids_below(self.domains, |d: MailDomain| d.id, self.next_id)
        &&& ids_below(self.entries, |e: MailEntry| e.id, self.next_id)
        &&& ids_below(self.allow_deny, |r: AllowDenyList| r.id, self.next_id)
        &&& ids_below(self.tokens, |t: MailAuthToken| t.id, self.next_id)
        &&& ids_below(self.keys, |k: MailDomainKey| k.id, self.next_id)
        &&& unique_by(self.users, |u: MailUser| u.id)
        &&& unique_by(self.users, |u: MailUser| u.username@)
        &&& unique_by(self.domains, |d: MailDomain| d.id)
        &&& unique_by(self.domains, |d: MailDomain| d.domainname@)
        &&& unique_by(self.entries, |e: MailEntry| e.id)
        &&& unique_by(self.entries, |e: MailEntry| (e.maildomain, e.name@))
        &&& unique_by(self.allow_deny, |r: AllowDenyList| r.id)
        &&& unique_by(self.tokens, |t: MailAuthToken| t.id)
        &&& unique_by(self.tokens, |t: MailAuthToken| t.token@)
        &&& unique_by(self.keys, |k: MailDomainKey| k.id)
        &&& unique_by(self.keys, |k: MailDomainKey| (k.maildomain, k.selector@))
    }
}

/// The rows of the administrative relations.
pub struct MailStore {
    users: Vec<MailUser>,
    domains: Vec<MailDomain>,
    entries: Vec<MailEntry>,
    allow_deny: Vec<AllowDenyList>,
    tokens: Vec<MailAuthToken>,
    keys: Vec<MailDomainKey>,
    next_id: i32,
}

impl View for MailStore {
    type V = StoreModel;

    closed spec fn view(&self) -> StoreModel {
        StoreModel {
            users: self.users@,
            domains: self.domains@,
            entries: self.entries@,
            allow_deny: self.allow_deny@,
            tokens: self.tokens@,
            keys: self.keys@,
            next_id: self.next_id as int,
        }
    }
}

impl MailStore {
    /// The constraints of the schema hold.
    pub open spec fn wf(&self) -> bool {
        self@.wf()
    }

    /// An empty store.
    pub fn new() -> (r: Self)
        ensures
            r.wf(),
            r@ == (StoreModel {
                users: Seq::empty(),
                domains: Seq::empty(),
                entries: Seq::empty(),
                allow_deny: Seq::empty(),
                tokens: Seq::empty(),
                keys: Seq::empty(),
                next_id: 1,
            }),
    {
        MailStore {
            users: Vec::new(),
            domains: Vec::new(),
            entries: Vec::new(),
            allow_deny: Vec::new(),
            tokens: Vec::new(),
            keys: Vec::new(),
            next_id: 1,
        }
    }

    pub fn users(&self) -> (r: &Vec<MailUser>)
        ensures
            r@ == self@.users,
    {
        &self.users
    }

    pub fn domains(&self) -> (r: &Vec<MailDomain>)
        ensures
            r@ == self@.domains,
    {
        &self.domains
    }

    pub fn entries(&self) -> (r: &Vec<MailEntry>)
        ensures
            r@ == self@.entries,
    {
        &self.entries
    }

    pub fn allow_deny(&self) -> (r: &Vec<AllowDenyList>)
        ensures
            r@ == self@.allow_deny,
    {
        &self.allow_deny
    }

    pub fn tokens(&self) -> (r: &Vec<MailAuthToken>)
        ensures
            r@ == self@.tokens,
    {
        &self.tokens
    }

    pub fn keys(&self) -> (r: &Vec<MailDomainKey>)
        ensures
            r@ == self@.keys,
    {
        &self.keys
    }

    pub(crate) fn push_user(&mut self, row: MailUser)
        requires
            (StoreModel { users: old(self)@.users.push(row), ..old(self)@ }).wf(),
        ensures
            final(self)@ == (StoreModel { users: old(self)@.users.push(row), ..old(self)@ }),
    {
        self.users.push(row);
    }

    pub(crate) fn push_domain(&mut self, row: MailDomain)
        requires
            (StoreModel { domains: old(self)@.domains.push(row), ..old(self)@ }).wf(),
        ensures
            final(self)@ == (StoreModel { domains: old(self)@.domains.push(row), ..old(self)@ }),
    {
        self.domains.push(row);
    }

    pub(crate) fn set_domain(&mut self, i: usize, row: MailDomain)
        requires
            i < old(self)@.domains.len(),
            (StoreModel { domains: old(self)@.domains.update(i as int, row), ..old(self)@ }).wf(),
        ensures
            final(self)@ == (StoreModel {
                domains: old(self)@.domains.update(i as int, row),
                ..old(self)@
            }),
    {
        self.domains.set(i, row);
    }

    pub(crate) fn push_entry(&mut self, row: MailEntry)
        requires
            (StoreModel { entries: old(self)@.entries.push(row), ..old(self)@ }).wf(),
        ensures
            final(self)@ == (StoreModel { entries: old(self)@.entries.push(row), ..old(self)@ }),
    {
        self.entries.push(row);
    }

    pub(crate) fn set_entry(&mut self, i: usize, row: MailEntry)
        requires
            i < old(self)@.entries.len(),
            (StoreModel { entries: old(self)@.entries.update(i as int, row), ..old(self)@ }).wf(),
        ensures
            final(self)@ == (StoreModel {
                entries: old(self)@.entries.update(i as int, row),
                ..old(self)@
            }),
    {
        self.entries.set(i, row);
    }

    pub(crate) fn remove_entry(&mut self, i: usize)
        requires
            old(self).wf(),
            i < old(self)@.entries.len(),
        ensures
            final(self).wf(),
            final(self)@ == (StoreModel {
                entries: old(self)@.entries.remove(i as int),
                ..old(self)@
            }),
    {
        proof {
            let v = self@;
            lemma_remove_unique(v.entries, |e: MailEntry| e.id, i as int);
            lemma_remove_unique(v.entries, |e: MailEntry| (e.maildomain, e.name@), i as int);
            lemma_remove_ids(v.entries, |e: MailEntry| e.id, v.next_id, i as int);
        }
        self.entries.remove(i);
    }

    pub(crate) fn push_rule(&mut self, row: AllowDenyList)
        requires
            (StoreModel { allow_deny: old(self)@.allow_deny.push(row), ..old(self)@ }).wf(),
        ensures
            final(self)@ == (StoreModel {
                allow_deny: old(self)@.allow_deny.push(row),
                ..old(self)@
            }),
    {
        self.allow_deny.push(row);
    }

    pub(crate) fn push_token(&mut self, row: MailAuthToken)
        requires
            (StoreModel { tokens: old(self)@.tokens.push(row), ..old(self)@ }).wf(),
        ensures
            final(self)@ == (StoreModel { tokens: old(self)@.tokens.push(row), ..old(self)@ }),
    {
        self.tokens.push(row);
    }

    pub(crate) fn remove_token(&mut self, i: usize)
        requires
            old(self).wf(),
            i < old(self)@.tokens.len(),
        ensures
            final(self).wf(),
            final(self)@ == (StoreModel { tokens: old(self)@.tokens.remove(i as int), ..old(self)@ }),
    {
        proof {
            let v = self@;
            lemma_remove_unique(v.tokens, |t: MailAuthToken| t.id, i as int);
            lemma_remove_unique(v.tokens, |t: MailAuthToken| t.token@, i as int);
            lemma_remove_ids(v.tokens, |t: MailAuthToken| t.id, v.next_id, i as int);
        }
        self.tokens.remove(i);
    }

    pub(crate) fn push_key(&mut self, row: MailDomainKey)
        requires
            (StoreModel { keys: old(self)@.keys.push(row), ..old(self)@ }).wf(),
        ensures
            final(self)@ == (StoreModel { keys: old(self)@.keys.push(row), ..old(self)@ }),
    {
        self.keys.push(row);
    }

    pub(crate) fn set_key(&mut self, i: usize, row: MailDomainKey)
        requires
            i < old(self)@.keys.len(),
            (StoreModel { keys: old(self)@.keys.update(i as int, row), ..old(self)@ }).wf(),
        ensures
            final(self)@ == (StoreModel { keys: old(self)@.keys.update(i as int, row), ..old(self)@ }),
    {
        self.keys.set(i, row);
    }

    pub(crate) fn remove_key(&mut self, i: usize)
        requires
            old(self).wf(),
            i < old(self)@.keys.len(),
        ensures
            final(self).wf(),
            final(self)@ == (StoreModel { keys: old(self)@.keys.remove(i as int), ..old(self)@ }),
    {
        proof {
            let v = self@;
            lemma_remove_unique(v.keys, |k: MailDomainKey| k.id, i as int);
            lemma_remove_unique(v.keys, |k: MailDomainKey| (k.maildomain, k.selector@), i as int);
            lemma_remove_ids(v.keys, |k: MailDomainKey| k.id, v.next_id, i as int);
        }
        self.keys.remove(i);
    }

    /// Whether ids are left for new rows.
    pub fn ids_left(&self) -> (r: bool)
        ensures
            r == (self@.next_id < i32::MAX),
    {
        self.next_id < i32::MAX
    }

    /// The id for a new row, or `IdsExhausted` once every id has been used.
    pub(crate) fn fresh_id(&mut self) -> (r: QueryResult<i32>)
        requires
            old(self).wf(),
        ensures
            final(self).wf(),
            match r {
                Ok(id) => {
                    &&& id == old(self)@.next_id
                    &&& final(self)@ == StoreModel { next_id: id + 1, ..old(self)@ }
                },
                Err(e) => e == DbError::IdsExhausted && *final(self) == *old(self)
                    && old(self)@.next_id == i32::MAX,
            },
    {
        if self.next_id == i32::MAX {
            return Err(DbError::IdsExhausted);
        }
        let id = self.next_id;
        self.next_id = id + 1;
        Ok(id)
    }
}

} // verus!
