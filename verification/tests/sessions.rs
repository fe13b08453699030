use hearth_web::sessions;
use hearth_web::sessions::{OwnedSession, Page, RealmRef, RealmSessions, SessionInfo, SessionsScope};
use hearth_web::web;
use hearth_web::web::{AuditAction, EngineError, ErrorKind, Reply, Routes, TargetRealm};

fn session() -> web::UiSession {
    web::UiSession {
        realm_id: 1,
        user_id: 2,
        session_id: 3,
        user_email: "ada@example.com".to_string(),
        csrf: Some("t".to_string()),
    }
}

fn site() -> web::Site {
    web::Site {
        product_name: "Hearth".to_string(),
        logo_url: "/logo.svg".to_string(),
        theme_css: "css".to_string(),
        realm_theme_css: None,
    }
}

fn uuid(n: u128) -> String {
    uuid::Uuid::from_u128(n).to_string()
}

fn fails<T>(kind: ErrorKind) -> Result<T, EngineError> {
    Err(EngineError { kind, text: "boom".to_string() })
}

fn info(id: u128, user_id: u128, created_at: i64, revoked: bool) -> SessionInfo {
    SessionInfo {
        id,
        user_id,
        created_at,
        last_refreshed_at: created_at + 60_000_000,
        expires_at: created_at + 3_600_000_000,
        revoked,
        device_label: None,
        ip_address: Some("10.0.0.1".to_string()),
    }
}

#[test]
fn own_sessions_are_listed() {
    let mut out = Vec::new();
    let next = sessions::load_session_rows(
        &session(),
        Page {
            items: vec![info(3, 2, 0, false), info(4, 2, 0, true), info(5, 2, 0, false)],
            next_cursor: Some("c".to_string()),
        },
        &mut out,
    );
    assert_eq!(next, Some("c".to_string()));
    assert_eq!(out.len(), 2);
    assert_eq!(out[0].id, uuid(3));
    assert!(out[0].is_current && !out[1].is_current);
    assert_eq!(out[0].device_label, "Unknown device");
    assert_eq!(out[0].ip_address, "10.0.0.1");
    assert_eq!(out[0].created_at, "1970-01-01 00:00 UTC");
    assert_eq!(out[0].last_active, "1970-01-01 00:01 UTC");
    assert_eq!(out[0].expires_at, "1970-01-01 01:00 UTC");
    match sessions::sessions_index(&site(), &session(), out, true) {
        Reply::Page(p) => {
            assert_eq!(p.sessions.len(), 2);
            assert_eq!(p.chrome.active, "account");
            assert!(p.chrome.narrow && p.chrome.is_admin && p.chrome.chrome);
            assert_eq!(p.chrome.theme_css, "css");
        }
        _ => panic!("no page"),
    }
}

#[test]
fn one_session_is_revoked() {
    let s = session();
    assert!(matches!(sessions::revoke_session_request(false, &uuid(4)), Err(Reply::Forbidden)));
    assert!(matches!(sessions::revoke_session_request(true, "x"), Err(Reply::NotFound(m)) if m == "Session not found"));
    assert!(matches!(sessions::revoke_session_request(true, &uuid(4)), Ok(4)));
    assert!(matches!(sessions::revoke_session_check(&s, Ok(Some(info(3, 2, 0, false)))), Ok(true)));
    assert!(matches!(sessions::revoke_session_check(&s, Ok(Some(info(4, 2, 0, false)))), Ok(false)));
    assert!(matches!(sessions::revoke_session_check(&s, Ok(Some(info(4, 9, 0, false)))), Err(Reply::NotFound(_))));
    assert!(matches!(sessions::revoke_session_check(&s, Ok(None)), Err(Reply::NotFound(_))));
    assert!(matches!(sessions::revoke_session_check(&s, fails(ErrorKind::Other)), Err(Reply::ServerError)));
    let done = sessions::revoke_session(&s, 4, false, Ok(()));
    assert!(matches!(done.reply, Reply::Redirect(u) if u == "/ui/account/sessions"));
    assert_eq!(done.events.len(), 1);
    assert_eq!(done.events[0].resource_id, uuid(4));
    let own = sessions::revoke_session(&s, 3, true, fails(ErrorKind::SessionNotFound));
    assert!(matches!(own.reply, Reply::SignOut(u) if u == "/ui/login"));
    assert_eq!(own.events.len(), 1);
    let failed = sessions::revoke_session(&s, 4, false, fails(ErrorKind::Other));
    assert!(matches!(failed.reply, Reply::ServerError));
    assert!(failed.events.is_empty());
}

#[test]
fn the_other_sessions_are_revoked() {
    let s = session();
    let items = vec![info(3, 2, 0, false), info(4, 2, 0, false), info(5, 2, 0, true), info(6, 2, 0, false)];
    assert_eq!(sessions::revoke_other_sessions_targets(&s, &items), vec![4, 6]);
    assert!(sessions::revoke_other_sessions_event(&s, 4, Ok(())).is_some());
    assert!(sessions::revoke_other_sessions_event(&s, 4, fails(ErrorKind::SessionNotFound)).is_some());
    assert!(sessions::revoke_other_sessions_event(&s, 4, fails(ErrorKind::Other)).is_none());
    assert!(matches!(sessions::revoke_other_sessions(false, true), Reply::Forbidden));
    assert!(matches!(sessions::revoke_other_sessions(true, false), Reply::ServerError));
    assert!(matches!(sessions::revoke_other_sessions(true, true), Reply::Redirect(u) if u == "/ui/account/sessions"));
}

fn owned_session(id: u128, created_at: i64) -> OwnedSession {
    OwnedSession { session: info(id, 2, created_at, false), email: Some("ada@example.com".to_string()) }
}

#[test]
fn the_console_lists_sessions_of_a_realm() {
    let realm = RealmRef { id: 7, name: "acme".to_string() };
    let page = Page { items: vec![owned_session(1, 0)], next_cursor: None };
    match sessions::admin_sessions_list(&site(), &session(), false, &realm, Ok(page)) {
        Reply::Page(p) => {
            assert!(!p.is_global);
            assert_eq!(p.sessions.len(), 1);
            assert_eq!(p.sessions[0].user_email, "ada@example.com");
            assert_eq!(p.sessions[0].realm_name, "acme");
            assert_eq!(p.target_realm_name, Some("acme".to_string()));
            assert_eq!(p.chrome.active, "realm-workspace");
        }
        _ => panic!("no page"),
    }
    assert!(matches!(
        sessions::admin_sessions_list(&site(), &session(), false, &realm, fails(ErrorKind::Other)),
        Reply::ServerError
    ));
    let named = SessionsScope::Named("acme".to_string());
    assert!(matches!(
        sessions::admin_sessions_list_realm(&named, Ok(None)),
        Err(Reply::NotFound(m)) if m == "Realm not found."
    ));
    assert!(matches!(sessions::admin_sessions_list_realm(&named, Ok(Some(realm))), Ok(r) if r.id == 7));
    assert!(matches!(sessions::admin_sessions_list_realm(&SessionsScope::System, Ok(None)), Err(Reply::ServerError)));
}

#[test]
fn an_unclear_target_is_an_error() {
    let scope = sessions::admin_sessions_list_scope(&Some("admin_target=x".to_string()));
    assert!(matches!(scope, SessionsScope::Unclear));
    assert!(matches!(sessions::admin_sessions_list_realm(&scope, Ok(None)), Err(Reply::ServerError)));
}

#[test]
fn every_realm_is_asked_once() {
    let realm = |id: u128, name: &str| RealmRef { id, name: name.to_string() };
    let mut listed = Vec::new();
    let first = Page { items: vec![realm(4, "a"), realm(0, "hearth")], next_cursor: Some("c".to_string()) };
    assert_eq!(sessions::gather_page(Ok(first), &mut listed), Some("c".to_string()));
    let second = Page { items: vec![realm(5, "b"), realm(4, "a")], next_cursor: None };
    assert_eq!(sessions::gather_page(Ok(second), &mut listed), None);
    assert_eq!(sessions::gather_page(fails(ErrorKind::Other), &mut listed), None);
    assert_eq!(listed.len(), 4);
    let queries = sessions::admin_sessions_list_queries(Some(realm(0, "hearth")), 0, listed);
    let asked: Vec<(u128, bool, usize)> = queries.iter().map(|q| (q.realm.id, q.is_system, q.limit)).collect();
    assert_eq!(asked, [(0, true, 50), (4, false, 50), (5, false, 50)]);
    let alone = sessions::admin_sessions_list_queries(None, 0, vec![realm(4, "a")]);
    assert!(alone.len() == 1 && !alone[0].is_system);
    let mut queries = queries.into_iter();
    let group = sessions::realm_sessions(queries.next().unwrap(), Ok(vec![owned_session(1, 0)]));
    assert!(group.is_system && group.items.len() == 1);
    assert!(sessions::realm_sessions(queries.next().unwrap(), fails(ErrorKind::Other)).items.is_empty());
}

#[test]
fn the_console_lists_all_sessions_newest_first() {
    let groups = vec![
        RealmSessions { realm_name: "a".to_string(), is_system: false, items: vec![owned_session(1, 10), owned_session(2, 30)] },
        RealmSessions { realm_name: "b".to_string(), is_system: true, items: vec![owned_session(3, 20)] },
    ];
    match sessions::admin_sessions_list_global(&site(), &session(), groups) {
        Reply::Page(p) => {
            assert!(p.is_global);
            let ids: Vec<u128> = p.sessions.iter().map(|r| r.session.id).collect();
            assert_eq!(ids, [2, 3, 1]);
            assert_eq!(p.sessions[0].realm_target_query, "?realm=a");
            assert_eq!(p.sessions[1].realm_name, "system");
            assert_eq!(p.sessions[1].realm_target_query, "?admin_target=system");
        }
        _ => panic!("no page"),
    }
}

#[test]
fn queries_name_the_realm() {
    assert!(matches!(sessions::admin_sessions_list_scope(&None), SessionsScope::Global));
    assert!(matches!(
        sessions::admin_sessions_list_scope(&Some("realm=acme".to_string())),
        SessionsScope::Named(n) if n == "acme"
    ));
    assert_eq!(sessions::resolve_user_email(&None), "(unknown)");
}

#[test]
fn the_console_revokes_sessions() {
    let target = TargetRealm { id: 7, name: "acme".to_string(), routes: Routes::Flat };
    let done = sessions::admin_session_revoke(&session(), &target, 4, false, Ok(()));
    assert_eq!(done.events.len(), 1);
    assert!(done.events[0].action == AuditAction::SessionRevoked);
    assert!(matches!(done.reply, Reply::Redirect(u) if u == "/ui/admin/sessions"));
    let missing = sessions::admin_session_revoke(&session(), &target, 4, false, fails(ErrorKind::SessionNotFound));
    assert!(matches!(missing.reply, Reply::NotFound(_)));
    let failed = sessions::admin_session_revoke(&session(), &target, 4, false, fails(ErrorKind::Other));
    assert!(matches!(failed.reply, Reply::ServerError));
}

#[test]
fn rows_fill_in_what_is_not_known() {
    let row = sessions::build_session_row("acme", "?realm=acme", OwnedSession { session: info(1, 9, 0, false), email: None });
    assert_eq!(row.created_at_display, "1970-01-01 00:00 UTC");
    assert!(row.realm_name == "acme" && row.realm_target_query == "?realm=acme");
    assert_eq!(sessions::or_default(&None, "x"), "x");
    assert_eq!(sessions::realm_query_text(true, "system"), "?admin_target=system");
    assert_eq!(sessions::realm_query_text(false, "acme"), "?realm=acme");
}
