//! The administrative operations: each takes the store, the identity already
//! resolved for the request and the request's values, and answers with a
//! response or one of the errors of [`APIError`].

use vstd::prelude::*;

use crate::models::{
    domain_named, entry_named, may_access_spec, Authorisation, DbError, MailDomain, MailEntry,
    MailStore, StoreModel,
};
use crate::models::util::AuthView;
use crate::state::Configuration;

pub mod domain;
pub mod frontend;
pub mod tokens;
pub mod users;

verus! {

/// Why an operation failed.
#[derive(Debug, Clone, PartialEq, Eq)]
pub enum APIError {
    /// The named domain, entry, key or user does not exist.
    NotFound(String),
    /// The identity may not do this; names what it tried.
    PermissionDenied(String),
    /// The store failed.
    DatabaseError(DbError),
    /// The request carried no bearer token.
    AuthErrorNoToken,
    /// The bearer token is not a stored token.
    AuthErrorBadToken(String),
    /// The token to revoke is the one the request is authenticated with.
    AuthErrorTokenInUse(String),
    /// The token to revoke is unknown, or another user's.
    BadToken(String),
    /// The entry is not a login or an account.
    NotLoginOrAccount(String),
    /// The entry is not an alias or a list.
    NotAlias(String),
    /// The entry is not a bouncer or a blackhole.
    NotBouncerOrBlackhole(String),
    /// The member to remove is not in the list.
    AliasComponentNotFound(String),
    /// The list would be left without members.
    AliasWouldBecomeEmpty(String),
    /// The username is taken.
    UserAlreadyExists(String),
}

/// The outcome of an operation.
pub type APIResult<T> = Result<T, APIError>;

impl APIError {
    /// The HTTP status of the error's category: 404 not found, 403 forbidden,
    /// 400 bad request, 500 server error.
    pub fn status_code(&self) -> (r: u16)
        ensures
            r == match self {
                APIError::NotFound(_) => 404u16,
                APIError::PermissionDenied(_) | APIError::AuthErrorNoToken
                | APIError::AuthErrorBadToken(_) | APIError::BadToken(_) => 403u16,
                APIError::DatabaseError(_) => 500u16,
                _ => 400u16,
            },
    {
        match self {
            APIError::NotFound(_) => 404,
            APIError::PermissionDenied(_) | APIError::AuthErrorNoToken
            | APIError::AuthErrorBadToken(_) | APIError::BadToken(_) => 403,
            APIError::DatabaseError(_) => 500,
            APIError::AuthErrorTokenInUse(_) | APIError::NotLoginOrAccount(_)
            | APIError::NotAlias(_) | APIError::NotBouncerOrBlackhole(_)
            | APIError::AliasComponentNotFound(_) | APIError::AliasWouldBecomeEmpty(_)
            | APIError::UserAlreadyExists(_) => 400,
        }
    }
}

/// What went wrong in the store, in words.
pub open spec fn db_error_text(e: DbError) -> Seq<char> {
    match e {
        DbError::NotFound => "Record not found"@,
        DbError::UniqueViolation(c) => "duplicate key value violates unique constraint "@ + c@,
        DbError::IdsExhausted => "No row ids are left"@,
        DbError::KeyMaterial(m) => m@,
        DbError::CredentialEncoding => "The secret could not be encoded"@,
    }
}

impl DbError {
    /// What went wrong, in words.
    pub fn describe(&self) -> (r: String)
        ensures
            r@ == db_error_text(*self),
    {
        match self {
            DbError::NotFound => String::from_str("Record not found"),
            DbError::UniqueViolation(c) => {
                let mut out = String::from_str("duplicate key value violates unique constraint ");
                out.append(c.as_str());
                out
            },
            DbError::IdsExhausted => String::from_str("No row ids are left"),
            DbError::KeyMaterial(m) => m.clone(),
            DbError::CredentialEncoding => String::from_str("The secret could not be encoded"),
        }
    }
}

/// `head` followed by `tail`.
fn joined(head: &str, tail: &str) -> (r: String)
    ensures
        r@ == head@ + tail@,
{
    let mut out = String::from_str(head);
    out.append(tail);
    out
}

impl APIError {
    /// The kind under which the error is reported to clients.
    pub fn response_kind(&self) -> (r: &'static str)
        ensures
            r@ == match self {
                APIError::NotFound(_) => "not-found"@,
                APIError::PermissionDenied(_) => "permission-denied"@,
                APIError::DatabaseError(_) => "database-error"@,
                APIError::AuthErrorNoToken | APIError::AuthErrorBadToken(_) => "authentication-failure"@,
                APIError::AuthErrorTokenInUse(_) => "token-in-use"@,
                APIError::BadToken(_) => "bad-token"@,
                APIError::NotLoginOrAccount(_) => "not-login-or-account"@,
                APIError::NotAlias(_) => "not-alias"@,
                APIError::NotBouncerOrBlackhole(_) => "not-bouncer-or-blackhole"@,
                APIError::AliasComponentNotFound(_) => "alias-component-not-found"@,
                APIError::AliasWouldBecomeEmpty(_) => "alias-would-become-empty"@,
                APIError::UserAlreadyExists(_) => "user-already-exists"@,
            },
    {
        match self {
            APIError::NotFound(_) => "not-found",
            APIError::PermissionDenied(_) => "permission-denied",
            APIError::DatabaseError(_) => "database-error",
            APIError::AuthErrorNoToken | APIError::AuthErrorBadToken(_) => "authentication-failure",
            APIError::AuthErrorTokenInUse(_) => "token-in-use",
            APIError::BadToken(_) => "bad-token",
            APIError::NotLoginOrAccount(_) => "not-login-or-account",
            APIError::NotAlias(_) => "not-alias",
            APIError::NotBouncerOrBlackhole(_) => "not-bouncer-or-blackhole",
            APIError::AliasComponentNotFound(_) => "alias-component-not-found",
            APIError::AliasWouldBecomeEmpty(_) => "alias-would-become-empty",
            APIError::UserAlreadyExists(_) => "user-already-exists",
        }
    }

    /// The error in words.
    pub fn message(&self) -> (r: String)
        ensures
            match self {
                APIError::NotFound(s) => r@ == "Entry not found: "@ + s@,
                APIError::PermissionDenied(s) => r@ == "Permission denied accessing: "@ + s@,
                APIError::AuthErrorNoToken => r@ == "Authentication failed, no token provided"@,
                APIError::AuthErrorBadToken(s) => r@ == "Authentication failed, bad token provided: "@
                    + s@,
                APIError::AuthErrorTokenInUse(s) => r@ == "Authentication token is in use: "@ + s@,
                APIError::BadToken(s) => r@ == "Bad token: "@ + s@,
                APIError::NotLoginOrAccount(s) => r@ == "Not a login or account: "@ + s@,
                APIError::NotAlias(s) => r@ == "Not an alias: "@ + s@,
                APIError::NotBouncerOrBlackhole(s) => r@ == "Not a bouncer or blackhole: "@ + s@,
                APIError::AliasComponentNotFound(s) => r@ == "Alias component "@ + s@
                    + " was not found"@,
                APIError::AliasWouldBecomeEmpty(s) => r@
                    == "Cannot remove last component, alias "@ + s@ + " would become empty"@,
                APIError::UserAlreadyExists(_) => r@ == "User already exists"@,
                APIError::DatabaseError(e) => r@ == "Database failure: "@ + db_error_text(*e),
            },
    {
        match self {
            APIError::NotFound(s) => joined("Entry not found: ", s.as_str()),
            APIError::PermissionDenied(s) => joined("Permission denied accessing: ", s.as_str()),
            APIError::DatabaseError(e) => {
                let d = e.describe();
                joined("Database failure: ", d.as_str())
            },
            APIError::AuthErrorNoToken => String::from_str("Authentication failed, no token provided"),
            APIError::AuthErrorBadToken(s) => joined(
                "Authentication failed, bad token provided: ",
                s.as_str(),
            ),
            APIError::AuthErrorTokenInUse(s) => joined("Authentication token is in use: ", s.as_str()),
            APIError::BadToken(s) => joined("Bad token: ", s.as_str()),
            APIError::NotLoginOrAccount(s) => joined("Not a login or account: ", s.as_str()),
            APIError::NotAlias(s) => joined("Not an alias: ", s.as_str()),
            APIError::NotBouncerOrBlackhole(s) => joined("Not a bouncer or blackhole: ", s.as_str()),
            APIError::AliasComponentNotFound(s) => {
                let mut out = joined("Alias component ", s.as_str());
                out.append(" was not found");
                out
            },
            APIError::AliasWouldBecomeEmpty(s) => {
                let mut out = joined("Cannot remove last component, alias ", s.as_str());
                out.append(" would become empty");
                out
            },
            APIError::UserAlreadyExists(_) => String::from_str("User already exists"),
        }
    }
}

/// The answer to a ping: the version of the service.
pub struct PingOutput {
    pub version: String,
}

pub fn get_ping(config: &Configuration) -> (r: PingOutput)
    ensures
        r.version@ == config.version_spec(),
{
    PingOutput { version: String::from_str(config.version()) }
}

/// The mail-client autoconfiguration document, up to the domain.
pub const AUTOCONFIG_HEAD: &'static str = "<?xml version=\"1.0\" encoding=\"UTF-8\"?>\n\n<clientConfig version=\"1.1\">\n  <emailProvider id=\"infrafish.uk\">\n    <domain>";

/// The mail-client autoconfiguration document, after the domain.
pub const AUTOCONFIG_TAIL: &'static str = "</domain>\n    <displayName>Infrafish Email</displayName>\n    <displayShortName>Infrafish</displayShortName>\n    <incomingServer type=\"imap\">\n      <hostname>mail.infrafish.uk</hostname>\n      <port>993</port>\n      <socketType>SSL</socketType>\n      <authentication>password-cleartext</authentication>\n      <username>%EMAILADDRESS%</username>\n    </incomingServer>\n    <outgoingServer type=\"smtp\">\n      <hostname>mail.infrafish.uk</hostname>\n      <port>587</port>\n      <socketType>STARTTLS</socketType>\n      <authentication>password-cleartext</authentication>\n      <username>%EMAILADDRESS%</username>\n    </outgoingServer>\n  </emailProvider>\n</clientConfig>\n";

/// The host name that a client asked for, without the `autoconfig.` label in
/// front.
pub open spec fn autoconfig_domain(host: Seq<char>) -> Seq<char> {
    let label = seq!['a', 'u', 't', 'o', 'c', 'o', 'n', 'f', 'i', 'g', '.'];
    if host.len() >= 11 && host.subrange(0, 11) == label {
        host.skip(11)
    } else {
        host
    }
}

/// The autoconfiguration document for the host `domain` that a mail client
/// asked for.
pub fn autoconfig(domain: &str) -> (r: String)
    ensures
        r@ == AUTOCONFIG_HEAD@ + autoconfig_domain(domain@) + AUTOCONFIG_TAIL@,
{
    proof {
        reveal_strlit("autoconfig.");
        assert("autoconfig."@ =~= seq!['a', 'u', 't', 'o', 'c', 'o', 'n', 'f', 'i', 'g', '.']);
    }
    let n = domain.unicode_len();
    let mut name = domain;
    if n >= 11 {
        let head = String::from_str(domain.substring_char(0, 11));
        if head == String::from_str("autoconfig.") {
            name = domain.substring_char(11, n);
            assert(domain@.subrange(11, n as int) =~= domain@.skip(11));
        }
    }
    let mut out = String::from_str(AUTOCONFIG_HEAD);
    out.append(name);
    out.append(AUTOCONFIG_TAIL);
    out
}

/// Whether `auth` may give a domain another owner: superusers only.
pub fn may_reassign_owner(auth: &Authorisation) -> (r: bool)
    ensures
        r == auth@.superuser,
{
    auth.superuser()
}

/// Whether `auth` may create domains: superusers only.
pub fn may_create_domain(auth: &Authorisation) -> (r: bool)
    ensures
        r == auth@.superuser,
{
    auth.superuser()
}

/// Whether `auth` may list every user: superusers only.
pub fn may_list_all_users(auth: &Authorisation) -> (r: bool)
    ensures
        r == auth@.superuser,
{
    auth.superuser()
}

/// Whether `auth` may create users: superusers only.
pub fn may_create_user(auth: &Authorisation) -> (r: bool)
    ensures
        r == auth@.superuser,
{
    auth.superuser()
}

/// How an entry is named in messages: `"{entry}@{domain}"`.
pub open spec fn full_name(entry: Seq<char>, domain: Seq<char>) -> Seq<char> {
    entry + seq!['@'] + domain
}

/// `"{entry}@{domain}"`.
pub fn make_full_name(entry: &str, domain: &str) -> (r: String)
    ensures
        r@ == full_name(entry@, domain@),
{
    let mut out = String::from_str(entry);
    proof {
        reveal_strlit("@");
    }
    out.append("@");
    out.append(domain);
    out
}

/// No domain of `db` called `name` may be administered by `auth`.
pub open spec fn named_domain_denied(
    v: StoreModel,
    name: Seq<char>,
    auth: AuthView,
) -> bool {
    forall|i: int|
        0 <= i < v.domains.len() && #[trigger] v.domains[i].domainname@ == name
            ==> !may_access_spec(v.domains[i], auth)
}

/// The domain called `name` exists and `auth` may administer it; `d` is it.
pub open spec fn is_accessible(
    v: StoreModel,
    d: MailDomain,
    name: Seq<char>,
    auth: AuthView,
) -> bool {
    v.domains.contains(d) && d.domainname@ == name && may_access_spec(d, auth)
}

/// The errors of the domain gate: `NotFound` or `PermissionDenied`, naming
/// the domain.
pub open spec fn domain_gate_error(
    v: StoreModel,
    name: Seq<char>,
    auth: AuthView,
    e: APIError,
) -> bool {
    match e {
        APIError::NotFound(s) => s@ == name && !domain_named(v, name),
        APIError::PermissionDenied(s) => s@ == name && domain_named(v, name)
            && named_domain_denied(v, name, auth),
        _ => false,
    }
}

/// The errors of the entry gate: those of the domain gate, or `NotFound`
/// naming `"{entry}@{domain}"`.
pub open spec fn entry_gate_error(
    v: StoreModel,
    domain: Seq<char>,
    entry: Seq<char>,
    auth: AuthView,
    e: APIError,
) -> bool {
    ||| domain_gate_error(v, domain, auth, e)
    ||| e matches APIError::NotFound(s) && s@ == full_name(entry, domain) && exists|d: MailDomain|
        is_accessible(v, d, domain, auth) && !entry_named(v, d.id, entry)
}

/// The domain called `domain_name`, where `auth` may administer it.
/// `NotFound` naming it where there is none, `PermissionDenied` naming it
/// where `auth` may not.
pub fn accessible_domain(db: &MailStore, domain_name: &str, auth: &Authorisation) -> (r: APIResult<
    MailDomain,
>)
    requires
        db.wf(),
    ensures
        match r {
            Ok(d) => db@.domains.contains(d) && d.domainname@ == domain_name@ && may_access_spec(
                d,
                auth@,
            ),
            Err(e) => domain_gate_error(db@, domain_name@, auth@, e),
        },
{
    let domain = match MailDomain::by_name(db, domain_name) {
        Some(d) => d,
        None => return Err(APIError::NotFound(String::from_str(domain_name))),
    };
    if !domain.may_access(auth) {
        proof {
            crate::models::lemma_domain_rows(db@);
        }
        return Err(APIError::PermissionDenied(String::from_str(domain_name)));
    }
    Ok(domain)
}

/// The entry called `entry` of the domain called `domain_name`, with that
/// domain, where `auth` may administer it. The errors of
/// [`accessible_domain`], then `NotFound` naming `"{entry}@{domain_name}"`
/// where the domain has no such entry.
pub fn accessible_entry(
    db: &MailStore,
    domain_name: &str,
    entry: &str,
    auth: &Authorisation,
) -> (r: APIResult<(MailDomain, MailEntry)>)
    requires
        db.wf(),
    ensures
        match r {
            Ok((d, e)) => {
                &&& db@.domains.contains(d)
                &&& d.domainname@ == domain_name@
                &&& may_access_spec(d, auth@)
                &&& db@.entries.contains(e)
                &&& e.maildomain == d.id
                &&& e.name@ == entry@
            },
            Err(e) => entry_gate_error(db@, domain_name@, entry@, auth@, e),
        },
{
    let domain = match accessible_domain(db, domain_name, auth) {
        Ok(d) => d,
        Err(e) => return Err(e),
    };
    assert(is_accessible(db@, domain, domain_name@, auth@));
    match domain.entry_by_name(db, entry) {
        Some(e) => Ok((domain, e)),
        None => Err(APIError::NotFound(make_full_name(entry, domain_name))),
    }
}

} // verus!
