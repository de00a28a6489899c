//! Users: listing and creation, for superusers.

use vstd::prelude::*;

use crate::api::{may_create_user, may_list_all_users, APIError, APIResult};
use crate::models::{
    owned_tokens, user_named, Authorisation, MailAuthToken, MailStore, MailUser, StoreModel,
};

verus! {

/// A user as listed: whether they are a superuser, and their tokens as
/// label and value.
pub struct ListUsersResponseEntry {
    pub superuser: bool,
    pub tokens: Vec<(String, String)>,
}

/// Every user, under their name.
pub struct ListUsersResponse {
    pub users: Vec<(String, ListUsersResponseEntry)>,
}

pub struct CreateUserRequest {
    pub username: String,
    pub superuser: bool,
}

/// A token as a user's listing shows it: its label and value.
pub open spec fn labelled(t: MailAuthToken) -> (Seq<char>, Seq<char>) {
    (t.label@, t.token@)
}

/// What the listing of user `u` in `v` holds.
pub open spec fn user_summary(v: StoreModel, u: MailUser) -> (bool, Seq<(Seq<char>, Seq<char>)>) {
    (
        u.superuser,
        v.tokens.filter(owned_tokens(u.id)).map_values(|t: MailAuthToken| labelled(t)),
    )
}

/// The view of a user's listing.
pub open spec fn entry_view(e: ListUsersResponseEntry) -> (bool, Seq<(Seq<char>, Seq<char>)>) {
    (e.superuser, e.tokens@.map_values(|p: (String, String)| (p.0@, p.1@)))
}

fn summary(db: &MailStore, u: &MailUser) -> (r: ListUsersResponseEntry)
    ensures
        entry_view(r) == user_summary(db@, *u),
{
    let toks = u.tokens(db);
    let mut out: Vec<(String, String)> = Vec::new();
    let mut i: usize = 0;
    while i < toks.len()
        invariant
            i <= toks.len(),
            out@.map_values(|p: (String, String)| (p.0@, p.1@)) == toks@.take(i as int).map_values(
                |t: MailAuthToken| labelled(t),
            ),
        decreases toks.len() - i,
    {
        let ghost was = out@;
        out.push((toks[i].label.clone(), toks[i].token.clone()));
        assert(out@.map_values(|p: (String, String)| (p.0@, p.1@)) =~= was.map_values(
            |p: (String, String)| (p.0@, p.1@),
        ).push(labelled(toks@[i as int])));
        assert(toks@.take(i + 1).map_values(|t: MailAuthToken| labelled(t)) =~= toks@.take(
            i as int,
        ).map_values(|t: MailAuthToken| labelled(t)).push(labelled(toks@[i as int])));
        i = i + 1;
    }
    assert(toks@.take(toks.len() as int) =~= toks@);
    ListUsersResponseEntry { superuser: u.superuser, tokens: out }
}

/// Every user with their tokens. Superusers only.
pub fn list_users(db: &MailStore, auth: &Authorisation) -> (r: APIResult<ListUsersResponse>)
    ensures
        match r {
            Ok(resp) => {
                &&& auth@.superuser
                &&& resp.users@.len() == db@.users.len()
                &&& forall|i: int|
                    0 <= i < db@.users.len() ==> #[trigger] resp.users@[i].0@
                        == db@.users[i].username@ && entry_view(resp.users@[i].1) == user_summary(
                        db@,
                        db@.users[i],
                    )
            },
            Err(e) => e is PermissionDenied && !auth@.superuser,
        },
{
    if !may_list_all_users(auth) {
        return Err(APIError::PermissionDenied(String::from_str("You may not list users")));
    }
    let all = MailUser::all(db);
    let mut out: Vec<(String, ListUsersResponseEntry)> = Vec::new();
    let mut i: usize = 0;
    while i < all.len()
        invariant
            all@ == db@.users,
            i <= all.len(),
            out@.len() == i,
            forall|k: int|
                0 <= k < i ==> #[trigger] out@[k].0@ == all@[k].username@ && entry_view(out@[k].1)
                    == user_summary(db@, all@[k]),
        decreases all.len() - i,
    {
        let entry = summary(db, &all[i]);
        out.push((all[i].username.clone(), entry));
        i = i + 1;
    }
    Ok(ListUsersResponse { users: out })
}

/// Creates the user that `body` describes, and lists them. Superusers only;
/// `UserAlreadyExists` naming the user where the name is taken.
pub fn create_user(db: &mut MailStore, auth: &Authorisation, body: CreateUserRequest) -> (r:
    APIResult<ListUsersResponseEntry>)
    requires
        old(db).wf(),
    ensures
        final(db).wf(),
        match r {
            Ok(resp) => exists|u: MailUser|
                {
                    &&& auth@.superuser
                    &&& !user_named(old(db)@, body.username@)
                    &&& u.username@ == body.username@
                    &&& u.superuser == body.superuser
                    &&& final(db)@ == (StoreModel {
                        users: old(db)@.users.push(u),
                        next_id: old(db)@.next_id + 1,
                        ..old(db)@
                    })
                    &&& entry_view(resp) == user_summary(final(db)@, u)
                },
            Err(e) => {
                &&& *final(db) == *old(db)
                &&& {
                    ||| e is PermissionDenied && !auth@.superuser
                    ||| e matches APIError::UserAlreadyExists(s) && s@ == body.username@
                        && auth@.superuser && user_named(old(db)@, body.username@)
                    ||| e matches APIError::DatabaseError(x) && x is IdsExhausted && auth@.superuser
                        && !user_named(old(db)@, body.username@) && old(db)@.next_id == i32::MAX
                }
            },
        },
{
    if !may_create_user(auth) {
        return Err(APIError::PermissionDenied(String::from_str("You may not create users")));
    }
    if MailUser::by_name(db, body.username.as_str()).is_some() {
        return Err(APIError::UserAlreadyExists(body.username));
    }
    let user = match MailUser::create(db, body.username.as_str(), body.superuser) {
        Ok(u) => u,
        Err(e) => return Err(APIError::DatabaseError(e)),
    };
    Ok(summary(db, &user))
}

} // verus!
