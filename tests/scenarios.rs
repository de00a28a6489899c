use mailconfig::api::domain::entries::{
    create_entry, get_entry, update_entry, CreateEntryRequest, EditEntryRequest,
    EntryListResponseItem,
};
use mailconfig::api::domain::keys::{
    list_domain_keys, set_domainkey_signing, ListDomainKeyRequest, SetDomainKeySigningRequest,
};
use mailconfig::api::domain::{create_domain, set_domain_flags, CreateDomainRequest};
use mailconfig::api::tokens::{resolve, revoke_token, RevokeTokenRequest};
use mailconfig::api::APIError;
use mailconfig::api_types::SetDomainFlagsRequest;
use mailconfig::models::{Authorisation, MailAuthToken, MailDomain, MailDomainKey, MailStore, MailUser};

fn login(db: &mut MailStore, name: &str, superuser: bool, token: &str) -> Authorisation {
    let user = MailUser::create(db, name, superuser).unwrap();
    MailAuthToken::create_with_token(db, user.id, "cli", token.to_string()).unwrap();
    resolve(db, Some(token.to_string())).unwrap()
}

fn domain_request(name: &str, owner: Option<&str>) -> CreateDomainRequest {
    CreateDomainRequest {
        domain_name: name.to_string(),
        owner: owner.map(|o| o.to_string()),
        remote_mx: None,
        sender_verify: None,
        grey_listing: None,
        virus_check: None,
        spamcheck_threshold: None,
    }
}

#[test]
fn owner_may_set_flags_and_stranger_may_not() {
    let mut db = MailStore::new();
    let admin = login(&mut db, "admin", true, "t-admin");
    let alice = login(&mut db, "alice", false, "t-alice");
    let bob = login(&mut db, "bob", false, "t-bob");
    create_domain(&mut db, &admin, domain_request("example.com", Some("alice"))).unwrap();
    let d = MailDomain::by_name(&db, "example.com").unwrap();
    assert_eq!(d.owner, alice.user());

    let mut req = SetDomainFlagsRequest::for_domain("example.com".to_string());
    req.grey_listing = Some(true);
    let flags = set_domain_flags(&mut db, &alice, req.clone()).unwrap();
    assert!(flags.grey_listing);
    assert!(MailDomain::by_name(&db, "example.com").unwrap().grey_listing);

    let denied = set_domain_flags(&mut db, &bob, req);
    assert_eq!(denied, Err(APIError::PermissionDenied("example.com".to_string())));
}

#[test]
fn alias_members_removed_until_last() {
    let mut db = MailStore::new();
    let admin = login(&mut db, "admin", true, "t-admin");
    create_domain(&mut db, &admin, domain_request("example.com", None)).unwrap();
    let created = create_entry(
        &mut db,
        "example.com",
        &admin,
        CreateEntryRequest::Alias { name: "team".to_string(), expansion: "a@x, b@x".to_string() },
    )
    .unwrap();
    assert_eq!(created.created, "team@example.com");

    let first = update_entry(
        &mut db,
        "example.com",
        "team",
        &admin,
        EditEntryRequest::RemoveExpansion { remove: "a@x".to_string() },
    )
    .unwrap();
    assert_eq!(first.updated, "team@example.com");
    match get_entry(&db, "example.com", "team", &admin).unwrap() {
        EntryListResponseItem::Alias { expansion } => assert_eq!(expansion, "b@x"),
        _ => panic!("not an alias"),
    }

    let second = update_entry(
        &mut db,
        "example.com",
        "team",
        &admin,
        EditEntryRequest::RemoveExpansion { remove: "b@x".to_string() },
    );
    assert!(matches!(second, Err(APIError::AliasWouldBecomeEmpty(ref s)) if s == "team@example.com"));
    match get_entry(&db, "example.com", "team", &admin).unwrap() {
        EntryListResponseItem::Alias { expansion } => assert_eq!(expansion, "b@x"),
        _ => panic!("not an alias"),
    }
}

#[test]
fn set_expansion_on_login_is_refused() {
    let mut db = MailStore::new();
    let admin = login(&mut db, "admin", true, "t-admin");
    create_domain(&mut db, &admin, domain_request("example.com", None)).unwrap();
    create_entry(
        &mut db,
        "example.com",
        &admin,
        CreateEntryRequest::Login { name: "joe".to_string(), password: "hunter2".to_string() },
    )
    .unwrap();
    let r = update_entry(
        &mut db,
        "example.com",
        "joe",
        &admin,
        EditEntryRequest::Expansion { expansion: "a@x".to_string() },
    );
    assert!(matches!(r, Err(APIError::NotAlias(ref s)) if s == "joe@example.com"));
    assert!(matches!(
        get_entry(&db, "example.com", "joe", &admin),
        Ok(EntryListResponseItem::Login)
    ));
}

#[test]
fn signing_keys_move_between_active_and_passive() {
    let mut db = MailStore::new();
    let admin = login(&mut db, "admin", true, "t-admin");
    create_domain(&mut db, &admin, domain_request("example.com", None)).unwrap();
    let d = MailDomain::by_name(&db, "example.com").unwrap();
    MailDomainKey::create_with_material(&mut db, d.id, "sel1", "PRIV1".into(), "PUB1".into(), true)
        .unwrap();
    MailDomainKey::create_with_material(&mut db, d.id, "sel2", "PRIV2".into(), "PUB2".into(), true)
        .unwrap();

    let listed = list_domain_keys(
        &db,
        &admin,
        ListDomainKeyRequest { mail_domain: "example.com".to_string() },
    )
    .unwrap();
    assert_eq!(
        listed.active,
        vec![
            ("sel1".to_string(), "v=DKIM1; k=rsa; p=PUB1".to_string()),
            ("sel2".to_string(), "v=DKIM1; k=rsa; p=PUB2".to_string()),
        ]
    );
    assert!(listed.passive.is_empty());

    let toggled = set_domainkey_signing(
        &mut db,
        &admin,
        SetDomainKeySigningRequest {
            mail_domain: "example.com".to_string(),
            selector: "sel1".to_string(),
            signing: false,
        },
    )
    .unwrap();
    assert!(!toggled.signing);

    let listed = list_domain_keys(
        &db,
        &admin,
        ListDomainKeyRequest { mail_domain: "example.com".to_string() },
    )
    .unwrap();
    assert_eq!(listed.active, vec![("sel2".to_string(), "v=DKIM1; k=rsa; p=PUB2".to_string())]);
    assert_eq!(listed.passive, vec![("sel1".to_string(), "v=DKIM1; k=rsa; p=PUB1".to_string())]);
}

#[test]
fn token_in_use_cannot_revoke_itself() {
    let mut db = MailStore::new();
    let alice = login(&mut db, "alice", false, "t-alice");
    let r = revoke_token(&mut db, &alice, RevokeTokenRequest { token: "t-alice".to_string() });
    assert!(matches!(r, Err(APIError::AuthErrorTokenInUse(ref s)) if s == "t-alice"));
    assert!(MailAuthToken::by_token(&db, "t-alice").is_some());
}
