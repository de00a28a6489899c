//! Bearer tokens: resolving the identity of a request, and the tokens a user
//! manages for themselves.

use vstd::prelude::*;

use crate::api::{APIError, APIResult};
use crate::api_types::{TokenListResponse, TokenListResponseEntry};
use crate::models::util::{is_token_value, AuthView};
use crate::models::{
    owned_tokens, token_index, token_stored, Authorisation, DbError, MailAuthToken, MailStore,
    MailUser, StoreModel,
};

verus! {

/// The scheme word, and the space after it, in front of a bearer token.
pub open spec fn bearer_prefix() -> Seq<char> {
    seq!['B', 'e', 'a', 'r', 'e', 'r', ' ']
}

/// The token that an `Authorization` header value presents: what follows
/// `"Bearer "`, where the value starts with it.
pub open spec fn presented_token(header: Seq<char>) -> Option<Seq<char>> {
    if header.len() >= 7 && header.subrange(0, 7) == bearer_prefix() {
        Some(header.skip(7))
    } else {
        None
    }
}

/// The bearer token of an `Authorization` header, if it has one.
pub fn bearer_token(header: Option<&str>) -> (r: Option<String>)
    ensures
        match header {
            Some(h) => match presented_token(h@) {
                Some(t) => r matches Some(x) && x@ == t,
                None => r is None,
            },
            None => r is None,
        },
{
    let h = match header {
        Some(h) => h,
        None => return None,
    };
    proof {
        reveal_strlit("Bearer ");
        assert("Bearer "@ =~= bearer_prefix());
    }
    let n = h.unicode_len();
    if n < 7 {
        return None;
    }
    let head = String::from_str(h.substring_char(0, 7));
    if head != String::from_str("Bearer ") {
        return None;
    }
    let rest = String::from_str(h.substring_char(7, n));
    assert(h@.subrange(7, n as int) =~= h@.skip(7));
    Some(rest)
}

/// What resolving the presented token `t` against `v` gives: `AuthErrorBadToken`
/// naming it where it is not stored; otherwise the identity of the stored
/// token's owner, or `NotFound` from the store where no user owns it.
pub open spec fn resolved(v: StoreModel, t: Seq<char>, r: APIResult<Authorisation>) -> bool {
    if !token_stored(v, t) {
        r matches Err(APIError::AuthErrorBadToken(s)) && s@ == t
    } else {
        match r {
            Ok(a) => exists|tok: MailAuthToken, u: MailUser|
                {
                    &&& v.tokens.contains(tok)
                    &&& tok.token@ == t
                    &&& v.users.contains(u)
                    &&& u.id == tok.mailuser
                    &&& a@ == (AuthView {
                        token: t,
                        user: u.id,
                        username: u.username@,
                        superuser: u.superuser,
                    })
                },
            Err(e) => e == APIError::DatabaseError(DbError::NotFound) && forall|i: int, j: int|
                0 <= i < v.tokens.len() && #[trigger] v.tokens[i].token@ == t && 0 <= j
                    < v.users.len() ==> #[trigger] v.users[j].id != v.tokens[i].mailuser,
        }
    }
}

/// The identity behind `token`: the stored token with that value and the
/// user who owns it. `AuthErrorNoToken` where no token was presented,
/// `AuthErrorBadToken` naming it where it is not stored.
pub fn resolve(db: &MailStore, token: Option<String>) -> (r: APIResult<Authorisation>)
    requires
        db.wf(),
    ensures
        match token {
            None => r == Err::<Authorisation, APIError>(APIError::AuthErrorNoToken),
            Some(t) => resolved(db@, t@, r),
        },
{
    let token = match token {
        Some(t) => t,
        None => return Err(APIError::AuthErrorNoToken),
    };
    let stored = match MailAuthToken::by_token(db, token.as_str()) {
        Some(t) => t,
        None => return Err(APIError::AuthErrorBadToken(token)),
    };
    let user = match MailUser::by_id(db, stored.mailuser) {
        Ok(u) => u,
        Err(e) => {
            proof {
                crate::models::lemma_token_key_rows(db@);
                let k = choose|k: int| 0 <= k < db@.tokens.len() && db@.tokens[k] == stored;
                assert forall|i: int, j: int|
                    0 <= i < db@.tokens.len() && #[trigger] db@.tokens[i].token@ == token@ && 0
                        <= j < db@.users.len() implies #[trigger] db@.users[j].id
                    != db@.tokens[i].mailuser by {
                    assert(db@.tokens[i].token@ == db@.tokens[k].token@);
                }
            }
            return Err(APIError::DatabaseError(e));
        },
    };
    Ok(Authorisation::new(token, &user))
}

/// The identity behind a request whose `Authorization` header is `header`:
/// [`resolve`] of its bearer token.
pub fn auth(db: &MailStore, header: Option<&str>) -> (r: APIResult<Authorisation>)
    requires
        db.wf(),
    ensures
        match header {
            None => r == Err::<Authorisation, APIError>(APIError::AuthErrorNoToken),
            Some(h) => match presented_token(h@) {
                None => r == Err::<Authorisation, APIError>(APIError::AuthErrorNoToken),
                Some(t) => resolved(db@, t, r),
            },
        },
{
    resolve(db, bearer_token(header))
}

/// A token as listed: its value and label.
pub open spec fn token_listed(t: MailAuthToken) -> (Seq<char>, Seq<char>) {
    (t.token@, t.label@)
}

/// The views of listed tokens.
pub open spec fn token_entries(v: Seq<TokenListResponseEntry>) -> Seq<(Seq<char>, Seq<char>)> {
    v.map_values(|e: TokenListResponseEntry| (e.token@, e.label@))
}

/// The tokens of the requesting user, with its name and the token in use.
pub fn list_tokens(db: &MailStore, auth: &Authorisation) -> (r: TokenListResponse)
    ensures
        r.username@ == auth@.username,
        r.used_token@ == auth@.token,
        token_entries(r.tokens@) == db@.tokens.filter(owned_tokens(auth@.user)).map_values(
            |t: MailAuthToken| token_listed(t),
        ),
{
    let all = MailAuthToken::by_owner(db, auth.user());
    let mut out: Vec<TokenListResponseEntry> = Vec::new();
    let mut i: usize = 0;
    while i < all.len()
        invariant
            i <= all.len(),
            token_entries(out@) == all@.take(i as int).map_values(
                |t: MailAuthToken| token_listed(t),
            ),
        decreases all.len() - i,
    {
        let ghost was = out@;
        out.push(TokenListResponseEntry { token: all[i].token.clone(), label: all[i].label.clone() });
        assert(token_entries(out@) =~= token_entries(was).push(token_listed(all@[i as int])));
        assert(token_entries(out@) =~= all@.take(i + 1).map_values(
            |t: MailAuthToken| token_listed(t),
        ));
        i = i + 1;
    }
    assert(all@.take(all.len() as int) =~= all@);
    TokenListResponse {
        username: String::from_str(auth.username()),
        used_token: String::from_str(auth.token()),
        tokens: out,
    }
}

pub struct CreateTokenRequest {
    pub label: String,
}

pub struct CreateTokenResponse {
    pub token: String,
}

/// A new token for the requesting user, labelled as `body` says.
pub fn create_token(db: &mut MailStore, auth: &Authorisation, body: CreateTokenRequest) -> (r:
    APIResult<CreateTokenResponse>)
    requires
        old(db).wf(),
    ensures
        final(db).wf(),
        match r {
            Ok(resp) => exists|t: MailAuthToken|
                {
                    &&& t.mailuser == auth@.user
                    &&& t.label@ == body.label@
                    &&& t.token == resp.token
                    &&& is_token_value(t.token@)
                    &&& !token_stored(old(db)@, t.token@)
                    &&& final(db)@ == (StoreModel {
                        tokens: old(db)@.tokens.push(t),
                        next_id: old(db)@.next_id + 1,
                        ..old(db)@
                    })
                },
            Err(e) => {
                &&& *final(db) == *old(db)
                &&& e matches APIError::DatabaseError(x) && (x is UniqueViolation || (
                x is IdsExhausted && old(db)@.next_id == i32::MAX))
            },
        },
{
    match MailAuthToken::create(db, auth.user(), body.label.as_str()) {
        Ok(t) => {
            let ghost g = t;
            let token = t.token;
            assert(g.token == token);
            Ok(CreateTokenResponse { token })
        },
        Err(e) => Err(APIError::DatabaseError(e)),
    }
}

pub struct RevokeTokenRequest {
    pub token: String,
}

pub struct RevokeTokenResponse {
    pub label: String,
}

/// Revokes a token of the requesting user, answering with its label. The
/// token the request is authenticated with cannot revoke itself
/// (`AuthErrorTokenInUse`); an unknown token, or another user's, is a
/// `BadToken`.
pub fn revoke_token(db: &mut MailStore, auth: &Authorisation, body: RevokeTokenRequest) -> (r:
    APIResult<RevokeTokenResponse>)
    requires
        old(db).wf(),
    ensures
        final(db).wf(),
        body.token@ == auth@.token ==> (r matches Err(APIError::AuthErrorTokenInUse(s)) && s@
            == body.token@),
        match r {
            Ok(resp) => exists|t: MailAuthToken|
                {
                    &&& body.token@ != auth@.token
                    &&& old(db)@.tokens.contains(t)
                    &&& t.token@ == body.token@
                    &&& t.mailuser == auth@.user
                    &&& resp.label == t.label
                    &&& final(db)@ == (StoreModel {
                        tokens: old(db)@.tokens.remove(token_index(old(db)@, t.id)),
                        ..old(db)@
                    })
                },
            Err(e) => {
                &&& *final(db) == *old(db)
                &&& {
                    ||| e matches APIError::AuthErrorTokenInUse(s) && s@ == body.token@
                        && body.token@ == auth@.token
                    ||| e matches APIError::BadToken(s) && s@ == body.token@ && body.token@
                        != auth@.token && forall|i: int|
                        0 <= i < old(db)@.tokens.len() && #[trigger] old(db)@.tokens[i].token@
                            == body.token@ ==> old(db)@.tokens[i].mailuser != auth@.user
                }
            },
        },
{
    let in_use = String::from_str(auth.token());
    if in_use == body.token {
        return Err(APIError::AuthErrorTokenInUse(body.token));
    }
    let stored = match MailAuthToken::by_token(db, body.token.as_str()) {
        Some(t) => t,
        None => return Err(APIError::BadToken(body.token)),
    };
    proof {
        let v = db@;
        crate::models::lemma_token_key_rows(v);
        let i = choose|i: int| 0 <= i < v.tokens.len() && v.tokens[i] == stored;
        assert(v.tokens[i].id == stored.id);
        assert(v.tokens[i].token@ == body.token@);
    }
    if stored.mailuser != auth.user() {
        return Err(APIError::BadToken(body.token));
    }
    let label = stored.label.clone();
    let ghost g = stored;
    match stored.delete_self(db) {
        Ok(_) => {
            assert(old(db)@.tokens.contains(g));
            Ok(RevokeTokenResponse { label })
        },
        Err(e) => Err(APIError::DatabaseError(e)),
    }
}

} // verus!
