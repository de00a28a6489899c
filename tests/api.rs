use mailconfig::api::domain::entries::{
    create_entry, delete_entry, get_entry, list_entries, update_entry, CreateEntryRequest,
    EditEntryRequest, EntryListResponseItem,
};
use mailconfig::api::domain::keys::{
    create_domain_key, delete_domainkey, CreateDomainKeyRequest, DeleteDomainKeyRequest,
};
use mailconfig::api::domain::{create_domain, list_domains, set_domain_flags, CreateDomainRequest};
use mailconfig::api::frontend::get_json;
use mailconfig::api::tokens::{
    auth, bearer_token, create_token, list_tokens, resolve, revoke_token, CreateTokenRequest,
    RevokeTokenRequest,
};
use mailconfig::api::users::{create_user, list_users, CreateUserRequest};
use mailconfig::api::{autoconfig, get_ping, make_full_name, APIError, AUTOCONFIG_HEAD, AUTOCONFIG_TAIL};
use mailconfig::api_types::SetDomainFlagsRequest;
use mailconfig::models::{
    AllowDenyList, Authorisation, DbError, MailAuthToken, MailDomain, MailEntryKind, MailStore,
    MailUser,
};
use mailconfig::state::{AppState, Configuration};

fn login(db: &mut MailStore, name: &str, superuser: bool, token: &str) -> Authorisation {
    let user = MailUser::create(db, name, superuser).unwrap();
    MailAuthToken::create_with_token(db, user.id, "cli", token.to_string()).unwrap();
    resolve(db, Some(token.to_string())).unwrap()
}

fn new_domain(name: &str) -> CreateDomainRequest {
    CreateDomainRequest {
        domain_name: name.to_string(),
        owner: None,
        remote_mx: None,
        sender_verify: None,
        grey_listing: None,
        virus_check: None,
        spamcheck_threshold: None,
    }
}

fn setup() -> (MailStore, Authorisation) {
    let mut db = MailStore::new();
    let admin = login(&mut db, "admin", true, "t-admin");
    create_domain(&mut db, &admin, new_domain("example.com")).unwrap();
    (db, admin)
}

#[test]
fn unknown_token_is_a_bad_token() {
    let (db, _) = setup();
    let r = resolve(&db, Some("nope".to_string()));
    assert_eq!(r.unwrap_err(), APIError::AuthErrorBadToken("nope".to_string()));
    let r = resolve(&db, None);
    assert_eq!(r.unwrap_err(), APIError::AuthErrorNoToken);
}

#[test]
fn resolve_builds_identity() {
    let (db, _) = setup();
    let a = resolve(&db, Some("t-admin".to_string())).unwrap();
    assert_eq!(a.token(), "t-admin");
    assert_eq!(a.username(), "admin");
    assert!(a.superuser());
}

#[test]
fn auth_header_needs_bearer_scheme() {
    let (db, _) = setup();
    assert_eq!(bearer_token(Some("Bearer abc")), Some("abc".to_string()));
    assert_eq!(bearer_token(Some("Basic abc")), None);
    assert_eq!(bearer_token(Some("Bearer")), None);
    assert_eq!(bearer_token(None), None);
    assert!(auth(&db, Some("Bearer t-admin")).is_ok());
    assert_eq!(auth(&db, None).unwrap_err(), APIError::AuthErrorNoToken);
    assert_eq!(auth(&db, Some("Token t-admin")).unwrap_err(), APIError::AuthErrorNoToken);
    assert_eq!(
        auth(&db, Some("Bearer zzz")).unwrap_err(),
        APIError::AuthErrorBadToken("zzz".to_string())
    );
}

#[test]
fn access_is_for_superusers_and_owners() {
    let mut db = MailStore::new();
    let admin = login(&mut db, "admin", true, "t-admin");
    let alice = login(&mut db, "alice", false, "t-alice");
    let bob = login(&mut db, "bob", false, "t-bob");
    let mut req = new_domain("a.org");
    req.owner = Some("alice".to_string());
    create_domain(&mut db, &admin, req).unwrap();
    let d = MailDomain::by_name(&db, "a.org").unwrap();
    assert!(d.may_access(&admin));
    assert!(d.may_access(&alice));
    assert!(!d.may_access(&bob));
}

#[test]
fn create_domain_uses_defaults() {
    let (db, _) = setup();
    let d = MailDomain::by_name(&db, "example.com").unwrap();
    assert!(d.sender_verify);
    assert!(!d.grey_listing);
    assert!(d.virus_check);
    assert_eq!(d.spamcheck_threshold, 100);
    assert_eq!(d.remotemx, None);
}

#[test]
fn only_superusers_create_domains() {
    let (mut db, _) = setup();
    let alice = login(&mut db, "alice", false, "t-alice");
    let r = create_domain(&mut db, &alice, new_domain("b.org"));
    assert_eq!(
        r.unwrap_err(),
        APIError::PermissionDenied("You are not permitted to create domains".to_string())
    );
}

#[test]
fn create_domain_with_unknown_owner() {
    let (mut db, admin) = setup();
    let mut req = new_domain("b.org");
    req.owner = Some("ghost".to_string());
    let r = create_domain(&mut db, &admin, req);
    assert_eq!(r.unwrap_err(), APIError::NotFound("Unknown user ghost".to_string()));
}

#[test]
fn duplicate_domain_is_a_store_failure() {
    let (mut db, admin) = setup();
    let r = create_domain(&mut db, &admin, new_domain("example.com"));
    assert!(matches!(r, Err(APIError::DatabaseError(DbError::UniqueViolation(_)))));
    assert_eq!(r.unwrap_err().status_code(), 500);
}

#[test]
fn set_flags_of_missing_domain() {
    let (mut db, admin) = setup();
    let r = set_domain_flags(&mut db, &admin, SetDomainFlagsRequest::for_domain("nope.org".into()));
    assert_eq!(r.unwrap_err(), APIError::NotFound("nope.org".to_string()));
}

#[test]
fn owner_change_needs_superuser() {
    let mut db = MailStore::new();
    let admin = login(&mut db, "admin", true, "t-admin");
    let alice = login(&mut db, "alice", false, "t-alice");
    login(&mut db, "bob", false, "t-bob");
    let mut req = new_domain("a.org");
    req.owner = Some("alice".to_string());
    create_domain(&mut db, &admin, req).unwrap();

    let mut change = SetDomainFlagsRequest::for_domain("a.org".to_string());
    change.owner = Some("bob".to_string());
    let r = set_domain_flags(&mut db, &alice, change.clone());
    assert_eq!(r.unwrap_err(), APIError::PermissionDenied("a.org".to_string()));

    set_domain_flags(&mut db, &admin, change).unwrap();
    let bob = MailUser::by_name(&db, "bob").unwrap();
    assert_eq!(MailDomain::by_name(&db, "a.org").unwrap().owner, bob.id);

    let mut ghost = SetDomainFlagsRequest::for_domain("a.org".to_string());
    ghost.owner = Some("ghost".to_string());
    let r = set_domain_flags(&mut db, &admin, ghost);
    assert_eq!(r.unwrap_err(), APIError::NotFound("ghost".to_string()));
}

#[test]
fn remote_mx_set_and_cleared() {
    let (mut db, admin) = setup();
    let mut req = SetDomainFlagsRequest::for_domain("example.com".to_string());
    req.remote_mx = Some("mx.example.net".to_string());
    req.spamcheck_threshold = Some(42);
    let flags = set_domain_flags(&mut db, &admin, req).unwrap();
    assert_eq!(flags.remote_mx, Some("mx.example.net".to_string()));
    assert_eq!(flags.spamcheck_threshold, 42);
    let mut clear = SetDomainFlagsRequest::for_domain("example.com".to_string());
    clear.remote_mx = Some(String::new());
    let flags = set_domain_flags(&mut db, &admin, clear).unwrap();
    assert_eq!(flags.remote_mx, None);
    assert_eq!(flags.spamcheck_threshold, 42);
}

#[test]
fn list_domains_shows_owned_domains() {
    let (mut db, admin) = setup();
    create_domain(&mut db, &admin, new_domain("other.org")).unwrap();
    let alice = login(&mut db, "alice", false, "t-alice");
    let listed = list_domains(&db, &admin);
    let names: Vec<String> = listed.domains.iter().map(|(n, _)| n.clone()).collect();
    assert_eq!(names, vec!["example.com".to_string(), "other.org".to_string()]);
    assert!(list_domains(&db, &alice).domains.is_empty());
}

#[test]
fn entries_of_each_kind() {
    let (mut db, admin) = setup();
    let reqs = vec![
        CreateEntryRequest::Login { name: "joe".into(), password: "pw".into() },
        CreateEntryRequest::Account { name: "acc".into(), password: "pw".into() },
        CreateEntryRequest::Alias { name: "team".into(), expansion: "a@x".into() },
        CreateEntryRequest::Bouncer { name: "old".into(), reason: "gone".into() },
        CreateEntryRequest::Blackhole { name: "spam".into(), reason: "junk".into() },
        CreateEntryRequest::List { name: "all".into(), members: "a@x, b@x".into() },
    ];
    for r in reqs {
        create_entry(&mut db, "example.com", &admin, r).unwrap();
    }
    let listed = list_entries(&db, "example.com", &admin).unwrap();
    assert_eq!(listed.entries.len(), 6);
    assert!(matches!(get_entry(&db, "example.com", "acc", &admin), Ok(EntryListResponseItem::Account)));
    assert!(matches!(
        get_entry(&db, "example.com", "old", &admin),
        Ok(EntryListResponseItem::Bouncer { ref reason }) if reason == "gone"
    ));
    assert!(matches!(
        get_entry(&db, "example.com", "spam", &admin),
        Ok(EntryListResponseItem::Blackhole { ref reason }) if reason == "junk"
    ));
    assert!(matches!(
        get_entry(&db, "example.com", "all", &admin),
        Ok(EntryListResponseItem::List { ref members }) if members == "a@x, b@x"
    ));
    let d = MailDomain::by_name(&db, "example.com").unwrap();
    let joe = d.entry_by_name(&db, "joe").unwrap();
    assert_eq!(joe.kind(), MailEntryKind::Login);
    assert!(joe.payload.text().starts_with("{ARGON2ID}$argon2id$"));
}

#[test]
fn duplicate_entry_name_is_refused() {
    let (mut db, admin) = setup();
    let alias = || CreateEntryRequest::Alias { name: "team".into(), expansion: "a@x".into() };
    create_entry(&mut db, "example.com", &admin, alias()).unwrap();
    let r = create_entry(&mut db, "example.com", &admin, alias());
    assert!(matches!(r, Err(APIError::DatabaseError(DbError::UniqueViolation(_)))));
}

#[test]
fn blank_alias_is_refused() {
    let (mut db, admin) = setup();
    let r = create_entry(
        &mut db,
        "example.com",
        &admin,
        CreateEntryRequest::List { name: "l".into(), members: "  ".into() },
    );
    assert!(matches!(r, Err(APIError::AliasWouldBecomeEmpty(ref s)) if s == "l@example.com"));
}

#[test]
fn missing_entry_is_named_in_full() {
    let (mut db, admin) = setup();
    let r = get_entry(&db, "example.com", "nobody", &admin);
    assert!(matches!(r, Err(APIError::NotFound(ref s)) if s == "nobody@example.com"));
    let r = delete_entry(&mut db, "example.com", "nobody", &admin);
    assert!(matches!(r, Err(APIError::NotFound(ref s)) if s == "nobody@example.com"));
}

#[test]
fn delete_entry_removes_it() {
    let (mut db, admin) = setup();
    create_entry(
        &mut db,
        "example.com",
        &admin,
        CreateEntryRequest::Bouncer { name: "old".into(), reason: "gone".into() },
    )
    .unwrap();
    let r = delete_entry(&mut db, "example.com", "old", &admin).unwrap();
    assert_eq!(r.deleted, "old@example.com");
    assert!(get_entry(&db, "example.com", "old", &admin).is_err());
}

#[test]
fn stranger_cannot_read_entries() {
    let (mut db, _) = setup();
    let bob = login(&mut db, "bob", false, "t-bob");
    let r = list_entries(&db, "example.com", &bob);
    assert!(matches!(r, Err(APIError::PermissionDenied(ref s)) if s == "example.com"));
    assert_eq!(r.err().unwrap().status_code(), 403);
}

#[test]
fn edits_follow_entry_kind() {
    let (mut db, admin) = setup();
    for r in vec![
        CreateEntryRequest::Login { name: "joe".into(), password: "pw".into() },
        CreateEntryRequest::Alias { name: "team".into(), expansion: "a@x".into() },
        CreateEntryRequest::Bouncer { name: "old".into(), reason: "gone".into() },
    ] {
        create_entry(&mut db, "example.com", &admin, r).unwrap();
    }
    let edit = |db: &mut MailStore, name: &str, e: EditEntryRequest| {
        update_entry(db, "example.com", name, &admin, e)
    };
    let r = edit(&mut db, "team", EditEntryRequest::SetPassword { password: "x".into() });
    assert!(matches!(r, Err(APIError::NotLoginOrAccount(ref s)) if s == "team@example.com"));
    let r = edit(&mut db, "old", EditEntryRequest::AddExpansion { add: "b@x".into() });
    assert!(matches!(r, Err(APIError::NotAlias(ref s)) if s == "old@example.com"));
    let r = edit(&mut db, "team", EditEntryRequest::ChangeReason { reason: "r".into() });
    assert!(matches!(r, Err(APIError::NotBouncerOrBlackhole(ref s)) if s == "team@example.com"));
    let r = edit(&mut db, "team", EditEntryRequest::RemoveExpansion { remove: "z@x".into() });
    assert!(matches!(r, Err(APIError::AliasComponentNotFound(ref s)) if s == "z@x"));
    let r = edit(&mut db, "team", EditEntryRequest::Expansion { expansion: " ".into() });
    assert!(matches!(r, Err(APIError::AliasWouldBecomeEmpty(ref s)) if s == "team@example.com"));

    edit(&mut db, "team", EditEntryRequest::AddExpansion { add: "b@x".into() }).unwrap();
    assert!(matches!(
        get_entry(&db, "example.com", "team", &admin),
        Ok(EntryListResponseItem::Alias { ref expansion }) if expansion == "a@x, b@x"
    ));
    edit(&mut db, "team", EditEntryRequest::Expansion { expansion: "c@x".into() }).unwrap();
    assert!(matches!(
        get_entry(&db, "example.com", "team", &admin),
        Ok(EntryListResponseItem::Alias { ref expansion }) if expansion == "c@x"
    ));
    edit(&mut db, "old", EditEntryRequest::ChangeReason { reason: "moved".into() }).unwrap();
    assert!(matches!(
        get_entry(&db, "example.com", "old", &admin),
        Ok(EntryListResponseItem::Bouncer { ref reason }) if reason == "moved"
    ));

    let d = MailDomain::by_name(&db, "example.com").unwrap();
    let before = d.entry_by_name(&db, "joe").unwrap().payload.text().clone();
    edit(&mut db, "joe", EditEntryRequest::SetPassword { password: "new".into() }).unwrap();
    let after = d.entry_by_name(&db, "joe").unwrap().payload.text().clone();
    assert!(after.starts_with("{ARGON2ID}$argon2id$"));
    assert_ne!(before, after);
}

#[test]
fn tokens_listed_created_and_revoked() {
    let mut db = MailStore::new();
    let alice = login(&mut db, "alice", false, "t-alice");
    let bob = login(&mut db, "bob", false, "t-bob");
    let made = create_token(&mut db, &alice, CreateTokenRequest { label: "laptop".into() }).unwrap();
    assert_eq!(made.token.len(), 32);
    assert!(made.token.chars().all(|c| c.is_ascii_hexdigit() && !c.is_ascii_uppercase()));

    let listed = list_tokens(&db, &alice);
    assert_eq!(listed.username, "alice");
    assert_eq!(listed.used_token, "t-alice");
    assert_eq!(listed.tokens.len(), 2);
    assert_eq!(listed.tokens[1].label, "laptop");
    assert_eq!(listed.tokens[1].token, made.token);

    let r = revoke_token(&mut db, &bob, RevokeTokenRequest { token: made.token.clone() });
    assert_eq!(r.err(), Some(APIError::BadToken(made.token.clone())));
    let r = revoke_token(&mut db, &alice, RevokeTokenRequest { token: "unknown".into() });
    assert_eq!(r.err(), Some(APIError::BadToken("unknown".to_string())));

    let revoked = revoke_token(&mut db, &alice, RevokeTokenRequest { token: made.token.clone() })
        .unwrap();
    assert_eq!(revoked.label, "laptop");
    assert!(MailAuthToken::by_token(&db, &made.token).is_none());
}

#[test]
fn users_for_superusers_only() {
    let mut db = MailStore::new();
    let admin = login(&mut db, "admin", true, "t-admin");
    let alice = login(&mut db, "alice", false, "t-alice");
    assert_eq!(
        list_users(&db, &alice).err(),
        Some(APIError::PermissionDenied("You may not list users".to_string()))
    );
    let r = create_user(&mut db, &alice, CreateUserRequest { username: "x".into(), superuser: false });
    assert_eq!(r.err(), Some(APIError::PermissionDenied("You may not create users".to_string())));
    let r = create_user(&mut db, &admin, CreateUserRequest { username: "alice".into(), superuser: false });
    assert_eq!(r.err(), Some(APIError::UserAlreadyExists("alice".to_string())));
    let made = create_user(&mut db, &admin, CreateUserRequest { username: "carol".into(), superuser: true })
        .unwrap();
    assert!(made.superuser);
    assert!(made.tokens.is_empty());
    let all = list_users(&db, &admin).unwrap();
    let names: Vec<String> = all.users.iter().map(|(n, _)| n.clone()).collect();
    assert_eq!(names, vec!["admin".to_string(), "alice".to_string(), "carol".to_string()]);
    assert_eq!(all.users[1].1.tokens, vec![("cli".to_string(), "t-alice".to_string())]);
}

#[test]
fn error_categories_and_messages() {
    let cases = vec![
        (APIError::NotFound("x".into()), 404, "not-found", "Entry not found: x"),
        (APIError::PermissionDenied("x".into()), 403, "permission-denied", "Permission denied accessing: x"),
        (APIError::AuthErrorNoToken, 403, "authentication-failure", "Authentication failed, no token provided"),
        (APIError::AuthErrorBadToken("t".into()), 403, "authentication-failure", "Authentication failed, bad token provided: t"),
        (APIError::AuthErrorTokenInUse("t".into()), 400, "token-in-use", "Authentication token is in use: t"),
        (APIError::BadToken("t".into()), 403, "bad-token", "Bad token: t"),
        (APIError::NotLoginOrAccount("e".into()), 400, "not-login-or-account", "Not a login or account: e"),
        (APIError::NotAlias("e".into()), 400, "not-alias", "Not an alias: e"),
        (APIError::NotBouncerOrBlackhole("e".into()), 400, "not-bouncer-or-blackhole", "Not a bouncer or blackhole: e"),
        (APIError::AliasComponentNotFound("m".into()), 400, "alias-component-not-found", "Alias component m was not found"),
        (APIError::AliasWouldBecomeEmpty("e".into()), 400, "alias-would-become-empty", "Cannot remove last component, alias e would become empty"),
        (APIError::UserAlreadyExists("u".into()), 400, "user-already-exists", "User already exists"),
        (
            APIError::DatabaseError(DbError::UniqueViolation("maildomain.domainname".into())),
            500,
            "database-error",
            "Database failure: duplicate key value violates unique constraint maildomain.domainname",
        ),
    ];
    for (e, code, kind, msg) in cases {
        assert_eq!(e.status_code(), code);
        assert_eq!(e.response_kind(), kind);
        assert_eq!(e.message(), msg);
    }
}

#[test]
fn full_name_joins_entry_and_domain() {
    assert_eq!(make_full_name("team", "example.com"), "team@example.com");
}

#[test]
fn autoconfig_fills_in_domain() {
    let doc = autoconfig("autoconfig.example.com");
    assert_eq!(doc, format!("{}example.com{}", AUTOCONFIG_HEAD, AUTOCONFIG_TAIL));
    assert!(doc.contains("<domain>example.com</domain>"));
    let doc = autoconfig("mail.example.com");
    assert!(doc.contains("<domain>mail.example.com</domain>"));
}

#[test]
fn ping_and_frontend_json() {
    let (mut db, admin) = setup();
    let d = MailDomain::by_name(&db, "example.com").unwrap();
    AllowDenyList::create(&mut db, d.id, true, "friend@a.org").unwrap();
    AllowDenyList::create(&mut db, d.id, false, "spammer@b.org").unwrap();
    AllowDenyList::create(&mut db, d.id, true, "pal@c.org").unwrap();
    let state = AppState::new(Configuration::new("1.2.3".to_string()), db);
    assert_eq!(get_ping(&state.config).version, "1.2.3");
    let json = get_json(&state.store, &state.config);
    assert_eq!(json.version, "1.2.3");
    assert_eq!(json.all_domains, vec!["example.com".to_string()]);
    let (name, f) = &json.per_domain[0];
    assert_eq!(name, "example.com");
    assert_eq!(f.sender_allow_list, vec!["friend@a.org".to_string(), "pal@c.org".to_string()]);
    assert_eq!(f.sender_deny_list, vec!["spammer@b.org".to_string()]);
    assert!(f.sender_verify_enable);
    assert_eq!(f.spamcheck_threshold, 100);
    let _ = admin;
}

#[test]
fn domain_key_created_and_deleted() {
    let (mut db, admin) = setup();
    let made = create_domain_key(
        &mut db,
        &admin,
        CreateDomainKeyRequest { mail_domain: "example.com".into(), selector: "s1".into(), signing: true },
    )
    .unwrap();
    assert!(made.signing);
    assert!(made.key.starts_with("v=DKIM1; k=rsa; p=MII"));
    let again = create_domain_key(
        &mut db,
        &admin,
        CreateDomainKeyRequest { mail_domain: "example.com".into(), selector: "s1".into(), signing: false },
    );
    assert!(matches!(again, Err(APIError::DatabaseError(DbError::UniqueViolation(_)))));
    let gone = delete_domainkey(
        &mut db,
        &admin,
        DeleteDomainKeyRequest { mail_domain: "example.com".into(), selector: "s1".into() },
    )
    .unwrap();
    assert_eq!(gone.selector, "s1");
    assert!(gone.signing);
    let missing = delete_domainkey(
        &mut db,
        &admin,
        DeleteDomainKeyRequest { mail_domain: "example.com".into(), selector: "s1".into() },
    );
    assert!(matches!(missing, Err(APIError::NotFound(ref s)) if s == "s1"));
}

#[test]
fn list_without_real_member_is_refused() {
    let (mut db, admin) = setup();
    let r = create_entry(
        &mut db,
        "example.com",
        &admin,
        CreateEntryRequest::Alias { name: "team".into(), expansion: ", ,".into() },
    );
    assert!(matches!(r, Err(APIError::AliasWouldBecomeEmpty(ref s)) if s == "team@example.com"));
    create_entry(
        &mut db,
        "example.com",
        &admin,
        CreateEntryRequest::List { name: "all".into(), members: "a@x".into() },
    )
    .unwrap();
    let r = update_entry(
        &mut db,
        "example.com",
        "all",
        &admin,
        EditEntryRequest::Expansion { expansion: ",".into() },
    );
    assert!(matches!(r, Err(APIError::AliasWouldBecomeEmpty(ref s)) if s == "all@example.com"));
    assert!(matches!(
        get_entry(&db, "example.com", "all", &admin),
        Ok(EntryListResponseItem::List { ref members }) if members == "a@x"
    ));
}

#[test]
fn token_without_owner_is_a_store_failure() {
    let mut db = MailStore::new();
    MailAuthToken::create_with_token(&mut db, 42, "orphan", "t-orphan".to_string()).unwrap();
    let r = resolve(&db, Some("t-orphan".to_string()));
    assert_eq!(r.unwrap_err(), APIError::DatabaseError(DbError::NotFound));
}

#[test]
fn frontend_lists_are_sorted() {
    let mut db = MailStore::new();
    let admin = login(&mut db, "admin", true, "t-admin");
    create_domain(&mut db, &admin, new_domain("zeta.org")).unwrap();
    create_domain(&mut db, &admin, new_domain("alpha.org")).unwrap();
    create_domain(&mut db, &admin, new_domain("Mid.org")).unwrap();
    let z = MailDomain::by_name(&db, "zeta.org").unwrap();
    AllowDenyList::create(&mut db, z.id, true, "b@x").unwrap();
    AllowDenyList::create(&mut db, z.id, true, "a@x").unwrap();
    AllowDenyList::create(&mut db, z.id, true, "ab@x").unwrap();
    let json = get_json(&db, &Configuration::new("1".to_string()));
    assert_eq!(
        json.all_domains,
        vec!["Mid.org".to_string(), "alpha.org".to_string(), "zeta.org".to_string()]
    );
    let (_, f) = json.per_domain.iter().find(|(n, _)| n == "zeta.org").unwrap();
    assert_eq!(f.sender_allow_list, vec!["a@x".to_string(), "ab@x".to_string(), "b@x".to_string()]);
}

#[test]
fn login_secret_encoding() {
    let (mut db, admin) = setup();
    let tagged = mailconfig::models::util::encode_password("pw").unwrap();
    create_entry(
        &mut db,
        "example.com",
        &admin,
        CreateEntryRequest::Login { name: "pre".into(), password: tagged.clone() },
    )
    .unwrap();
    let d = MailDomain::by_name(&db, "example.com").unwrap();
    assert_eq!(d.entry_by_name(&db, "pre").unwrap().payload.text(), &tagged);
    let r = create_entry(
        &mut db,
        "example.com",
        &admin,
        CreateEntryRequest::Account { name: "bad".into(), password: "{ARGON2ID}junk".into() },
    );
    assert_eq!(r.err(), Some(APIError::DatabaseError(DbError::CredentialEncoding)));
    assert!(d.entry_by_name(&db, "bad").is_none());
}
