use hearth_web::audit;
use hearth_web::audit::{ActorQuery, AuditFilterParams, AuditPage, AuditRecord, LabelCache, ResourceQuery};
use hearth_web::web;
use hearth_web::web::{AuditAction, AuditEvent, EngineError, ErrorKind, Meta, Reply};

fn session() -> web::UiSession {
    web::UiSession {
        realm_id: 1,
        user_id: 2,
        session_id: 3,
        user_email: "ada@example.com".to_string(),
        csrf: Some("t".to_string()),
    }
}

fn site() -> web::Site {
    web::Site {
        product_name: "Hearth".to_string(),
        logo_url: "/logo.svg".to_string(),
        theme_css: "css".to_string(),
        realm_theme_css: None,
    }
}

fn uuid(n: u128) -> String {
    uuid::Uuid::from_u128(n).to_string()
}

fn meta(e: &AuditEvent) -> Vec<(String, String)> {
    e.metadata
        .iter()
        .map(|(k, v)| {
            (k.clone(), match v {
                Meta::Text(t) => t.clone(),
                Meta::Flag(b) => b.to_string(),
            })
        })
        .collect()
}

fn pairs(v: &[(&str, &str)]) -> Vec<(String, String)> {
    v.iter().map(|(a, b)| (a.to_string(), b.to_string())).collect()
}

fn failed() -> EngineError {
    EngineError { kind: ErrorKind::Other, text: "boom".to_string() }
}

#[test]
fn operations_are_recorded() {
    let s = session();
    for (op, action) in [
        ("create", AuditAction::UserCreated),
        ("update", AuditAction::UserUpdated),
        ("delete", AuditAction::UserDeleted),
    ] {
        let e = audit::audit_user_event(&s, 9, 7, op).unwrap();
        assert!(e.action == action);
        assert_eq!(e.realm_id, 9);
        assert_eq!(e.actor, uuid(2));
        assert_eq!((e.resource_type.as_str(), e.resource_id), ("user", uuid(7)));
        assert_eq!(meta(&audit::audit_user_event(&s, 9, 7, op).unwrap()), pairs(&[("via", "ui")]));
    }
    assert!(audit::audit_user_event(&s, 9, 7, "frobnicate").is_none());
    assert!(audit::audit_realm_event(&s, 9, "delete").unwrap().action == AuditAction::RealmDeleted);
    assert!(audit::audit_app_event(&s, 9, 7, "create").unwrap().action == AuditAction::ClientRegistered);
    assert!(audit::audit_org_event(&s, 9, 7, "update").unwrap().action == AuditAction::OrgUpdated);
    assert!(audit::audit_session_event(&s, 9, 7, "revoke").unwrap().action == AuditAction::SessionRevoked);
    assert!(audit::audit_session_event(&s, 9, 7, "create").is_none());
}

#[test]
fn groups_are_recorded_with_members() {
    let s = session();
    let member = Some(("user".to_string(), "u1".to_string()));
    let e = audit::audit_group_event(&s, 9, 7, "member_add", &member);
    assert!(e.unwrap().action == AuditAction::GroupMemberAdded);
    assert!(audit::audit_group_event(&s, 9, 7, "create", &None).unwrap().action == AuditAction::GroupCreated);
    assert!(audit::audit_group_event(&s, 9, 7, "x", &None).is_none());
    let e = audit::audit_group_role_event(&s, 9, 7, true, "viewer");
    assert!(e.action == AuditAction::RoleAssigned);
    let e = audit::audit_group_role_event(&s, 9, 7, false, "viewer");
    assert!(e.action == AuditAction::RoleRevoked);
}

#[test]
fn own_changes_are_recorded() {
    let s = session();
    let e = audit::audit_password_changed(&s);
    assert!(e.action == AuditAction::CredentialChanged);
    assert_eq!((e.realm_id, e.resource_id.clone()), (1, uuid(2)));
    assert_eq!(meta(&e), pairs(&[("via", "ui")]));
    assert_eq!(meta(&audit::audit_mfa_event(&s, "mfa_enable")), pairs(&[("via", "ui"), ("op", "mfa_enable")]));
    assert_eq!(meta(&audit::audit_self_session_revoke(&s, 4, false)), pairs(&[("via", "self")]));
    assert_eq!(
        meta(&audit::audit_self_session_revoke(&s, 4, true)),
        pairs(&[("via", "self"), ("batch", "true")])
    );
}

#[test]
fn labels_are_cached() {
    let mut cache = LabelCache::new();
    assert_eq!(cache.get("user", "1"), None);
    cache.put("user", "1", "Ada");
    cache.put("realm", "1", "acme");
    assert_eq!(cache.get("user", "1"), Some("Ada".to_string()));
    cache.put("user", "1", "Eve");
    assert_eq!(cache.get("user", "1"), Some("Ada".to_string()));
    assert_eq!(cache.get("realm", "1"), Some("acme".to_string()));
    assert_eq!(cache.get("org", "1"), None);
}

#[test]
fn actors_are_looked_up_once() {
    let mut cache = LabelCache::new();
    let actor = uuid(7);
    assert!(matches!(
        audit::audit_actor_query(&actor, 1, 99, &cache),
        ActorQuery::User { id: 7, elsewhere: true }
    ));
    assert!(matches!(
        audit::audit_actor_query(&actor, 99, 99, &cache),
        ActorQuery::User { id: 7, elsewhere: false }
    ));
    assert!(matches!(audit::audit_actor_query("system", 1, 99, &cache), ActorQuery::Known(s) if s == "system"));
    let here = Some("ada@example.com".to_string());
    assert_eq!(audit::resolve_audit_actor(&actor, &here, &None, &mut cache), "ada@example.com");
    assert!(matches!(
        audit::audit_actor_query(&actor, 1, 99, &cache),
        ActorQuery::Known(s) if s == "ada@example.com"
    ));
}

#[test]
fn resources_are_looked_up_by_type() {
    let mut cache = LabelCache::new();
    assert!(matches!(audit::audit_resource_query("user", &uuid(7), &cache), ResourceQuery::User(7)));
    assert!(matches!(audit::audit_resource_query("realm", &uuid(7), &cache), ResourceQuery::Realm(7)));
    assert!(matches!(
        audit::audit_resource_query("organization", &uuid(7), &cache),
        ResourceQuery::Organization(7)
    ));
    for kind in ["client", "oauth_client"] {
        assert!(matches!(audit::audit_resource_query(kind, &uuid(7), &cache), ResourceQuery::Client(7)));
    }
    assert!(matches!(audit::audit_resource_query("client", "7", &cache), ResourceQuery::Nothing));
    assert!(matches!(audit::audit_resource_query("group", &uuid(7), &cache), ResourceQuery::Nothing));
    let wiki = Some("Wiki".to_string());
    assert_eq!(audit::resolve_audit_resource("client", &uuid(7), &wiki, &mut cache), "Wiki");
    let found = Some("Acme".to_string());
    assert_eq!(audit::resolve_audit_resource("organization", &uuid(7), &found, &mut cache), "Acme");
    assert!(matches!(
        audit::audit_resource_query("organization", &uuid(7), &cache),
        ResourceQuery::Known(s) if s == "Acme"
    ));
}

fn params(start: Option<&str>, end: Option<&str>, limit: Option<usize>) -> AuditFilterParams {
    AuditFilterParams {
        actor: Some("u1".to_string()),
        action: Some(String::new()),
        start_date: start.map(String::from),
        end_date: end.map(String::from),
        limit,
    }
}

#[test]
fn filters_become_queries() {
    let p = params(Some("1970-01-02"), Some("1970-01-02"), None);
    assert!(audit::filter_in_range(&p.start_date) && audit::filter_in_range(&p.end_date));
    let q = audit::admin_audit_list_query(&p, 9, None);
    assert_eq!(q.realm_id, 9);
    assert_eq!(q.start_time, Some(86_400_000_000));
    assert_eq!(q.actor, Some("u1".to_string()));
    assert_eq!(q.action, None);
    assert_eq!(q.limit, 50);
    assert!(q.end_time >= q.start_time);
    let q = audit::admin_audit_list_query(&params(None, None, Some(1_000_000)), 9, None);
    assert!(q.limit < 1_000_000);
    assert_eq!((q.start_time, q.end_time), (None, None));
}

fn record() -> AuditRecord {
    AuditRecord {
        timestamp: 0,
        actor: "a".to_string(),
        action: "user.created".to_string(),
        resource_type: "user".to_string(),
        resource_id: "r".to_string(),
    }
}

#[test]
fn the_log_is_shown() {
    let row = audit::audit_row(record(), "Ada".to_string(), "Eve".to_string());
    assert_eq!(row.timestamp_display, "1970-01-01 00:00 UTC");
    assert_eq!((row.actor_display.as_str(), row.resource_display.as_str()), ("Ada", "Eve"));
    let actions = vec!["b".to_string(), "a".to_string()];
    let p = params(Some("2024-01-01"), None, Some(7));
    match audit::admin_audit_list(&site(), &session(), &p, false, actions.clone(), Ok(vec![row])) {
        Reply::Page(AuditPage::Full(page)) => {
            assert_eq!(page.events.len(), 1);
            assert_eq!(page.form_start_date, "2024-01-01");
            assert_eq!(page.form_limit, "7");
            assert_eq!(page.form_actor, "u1");
            assert_eq!(page.available_actions, ["a", "b"]);
            assert_eq!(page.chrome.active, "audit");
            assert!(page.chrome.is_admin);
        }
        _ => panic!("not the whole page"),
    }
    assert!(matches!(
        audit::admin_audit_list(&site(), &session(), &p, true, actions.clone(), Ok(vec![])),
        Reply::Page(AuditPage::Rows(_))
    ));
    assert!(matches!(
        audit::admin_audit_list(&site(), &session(), &p, false, actions, Err(failed())),
        Reply::ServerError
    ));
}

#[test]
fn integrity_is_told() {
    let told = |r: Result<bool, EngineError>| {
        match audit::admin_audit_verify_integrity(&site(), &session(), vec!["a".to_string()], r) {
            Reply::Page(p) => p.flash_message.unwrap(),
            _ => "none".to_string(),
        }
    };
    assert_eq!(
        told(Ok(false)),
        "Integrity violation detected! The audit chain may have been tampered with."
    );
    assert_ne!(told(Ok(true)), told(Ok(false)));
    assert_eq!(told(Err(failed())), "none");
}
