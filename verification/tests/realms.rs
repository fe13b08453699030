use hearth_web::admins;
use hearth_web::admins::{RealmAdminGrantForm, RealmAdminPickerParams, RoleMember};
use hearth_web::members::Person;
use hearth_web::query;
use hearth_web::realms;
use hearth_web::realms::{Realm, SwitchRealmForm, SwitchReply, TestEmailForm};
use hearth_web::sessions::{Page, RealmRef};
use hearth_web::users::{PaginationParams, User, UserStatus};
use hearth_web::web;
use hearth_web::web::{AuditAction, EngineError, ErrorKind, Reply};

fn session() -> web::UiSession {
    web::UiSession {
        realm_id: 7,
        user_id: 2,
        session_id: 3,
        user_email: "ada@example.com".to_string(),
        csrf: Some("t".to_string()),
    }
}

fn site() -> web::Site {
    web::Site {
        product_name: "Hearth".to_string(),
        logo_url: "/logo.svg".to_string(),
        theme_css: "css".to_string(),
        realm_theme_css: None,
    }
}

fn uuid(n: u128) -> String {
    uuid::Uuid::from_u128(n).to_string()
}

fn fails<T>(kind: ErrorKind) -> Result<T, EngineError> {
    Err(EngineError { kind, text: "boom".to_string() })
}

fn realm(id: u128, name: &str, archived: bool) -> Realm {
    Realm {
        id,
        name: name.to_string(),
        archived,
        access_token_ttl_micros: Some(900_000_000),
        refresh_token_ttl_micros: None,
        lockout_duration_micros: Some(3_600_000_000),
        session_ttl_micros: Some(28_800_000_000),
        password_memory_cost: Some(131_072),
    }
}

fn holder(id: u128, name: &str, email: &str) -> RoleMember {
    RoleMember::User { id, person: Some(Person { display_name: name.to_string(), email: email.to_string() }) }
}

fn page(items: Vec<RoleMember>) -> Vec<Page<RoleMember>> {
    vec![Page { items, next_cursor: None }]
}

#[test]
fn realms_are_listed() {
    assert_eq!(realms::admin_realms_list_query(PaginationParams { cursor: Some("c".to_string()) }), (Some("c".to_string()), 20));
    match realms::admin_realms_list(&site(), &session(), Ok(Page { items: vec![realm(1, "a", false)], next_cursor: None })) {
        Reply::Page(p) => assert!(p.realms.len() == 1 && p.chrome.active == "realms"),
        _ => panic!("no page"),
    }
    assert!(matches!(realms::admin_realms_list(&site(), &session(), fails(ErrorKind::Other)), Reply::ServerError));
}

#[test]
fn a_realm_is_shown() {
    assert!(matches!(realms::admin_realm_detail_request("x"), Err(Reply::NotFound(m)) if m == "Realm not found"));
    let own = page(vec![holder(1, "Ada", "ada@x")]);
    match realms::admin_realm_detail(&site(), &session(), Ok(Some(realm(7, "acme", false))), 0, &own, &vec![]) {
        Reply::Page(p) => {
            assert_eq!(p.access_token_ttl_display, Some("15m".to_string()));
            assert_eq!(p.refresh_token_ttl_display, None);
            assert_eq!(p.lockout_duration_display, Some("1h".to_string()));
            assert_eq!(p.session_ttl_display, Some("8h".to_string()));
            assert_eq!(p.password_memory_cost_display, Some("128 MiB (131072 KiB)".to_string()));
            assert_eq!(p.admins[0].email, "ada@x");
        }
        _ => panic!("no page"),
    }
    assert!(matches!(realms::admin_realm_detail(&site(), &session(), Ok(None), 0, &own, &vec![]), Reply::NotFound(_)));
}

#[test]
fn only_archived_realms_are_deleted() {
    assert!(realms::admin_realm_delete_check(Ok(Some(realm(7, "a", true)))).is_ok());
    assert!(matches!(
        realms::admin_realm_delete_check(Ok(Some(realm(7, "a", false)))),
        Err(Reply::BadRequest(m)) if m.starts_with("Only archived realms can be permanently deleted.")
    ));
    assert!(matches!(realms::admin_realm_delete_check(Ok(None)), Err(Reply::NotFound(_))));
    assert!(matches!(realms::admin_realm_delete_check(fails(ErrorKind::Other)), Err(Reply::ServerError)));
    let done = realms::admin_realm_delete(&session(), 7, Ok(()));
    assert!(done.events[0].action == AuditAction::RealmDeleted && done.events[0].resource_id == uuid(7));
    assert!(matches!(done.reply, Reply::Redirect(u) if u == "/ui/admin/realms"));
    assert!(matches!(realms::admin_realm_delete(&session(), 7, fails(ErrorKind::RealmNotFound)).reply, Reply::NotFound(_)));
    assert!(matches!(realms::admin_realm_delete(&session(), 7, fails(ErrorKind::Other)).reply, Reply::ServerError));
    assert!(matches!(realms::admin_realm_delete_request(false, &uuid(7)), Err(Reply::Forbidden)));
}

#[test]
fn administrators_are_shown_once_by_name() {
    let own = page(vec![holder(1, "Zoe", "zoe@x"), RoleMember::Group, holder(2, "", "amy@x")]);
    let system = vec![
        Page { items: vec![holder(8, "Zoe S", "zoe@x"), holder(9, "Bob", "bob@x")], next_cursor: Some("c".to_string()) },
        Page { items: vec![RoleMember::User { id: 10, person: None }], next_cursor: None },
    ];
    let all = admins::resolve_realm_admins(7, 0, &own, &system);
    let shown: Vec<(&str, &str, bool)> =
        all.iter().map(|a| (a.display_name.as_str(), a.email.as_str(), a.is_system_admin)).collect();
    assert_eq!(shown, [("Bob", "bob@x", true), ("Zoe", "zoe@x", false), ("amy@x", "amy@x", false)]);
    assert_eq!(all[1].user_id, uuid(1));
    let in_system = admins::resolve_realm_admins(0, 0, &own, &system);
    assert_eq!(in_system.len(), 2);
    let mut out = Vec::new();
    admins::collect_role_members(&system, true, &mut out);
    assert_eq!(out.len(), 2);
}

fn user(id: u128) -> User {
    User {
        id,
        email: "e@x".to_string(),
        display_name: "E".to_string(),
        first_name: String::new(),
        last_name: String::new(),
        status: UserStatus::Active,
        created_at: 0,
        updated_at: 0,
        attributes: vec![],
    }
}

#[test]
fn administrators_are_granted_and_revoked() {
    let form = |id: &str| RealmAdminGrantForm { csrf: "t".to_string(), user_id: id.to_string() };
    let padded = format!(" {} ", uuid(9));
    assert!(matches!(admins::admin_realm_admin_grant_request(true, &uuid(7), &form(&padded)), Ok((7, 9))));
    assert!(matches!(
        admins::admin_realm_admin_grant_request(true, &uuid(7), &form("x")),
        Err(Reply::BadRequest(m)) if m == "Invalid user ID"
    ));
    assert!(matches!(admins::admin_realm_admin_grant_request(true, "x", &form("x")), Err(Reply::NotFound(_))));
    let admin = vec!["hearth.admin".to_string()];
    let none: Vec<String> = vec![];
    assert!(admins::admin_realm_admin_grant_check(7, Ok(Some(user(9))), &none).is_ok());
    assert!(matches!(admins::admin_realm_admin_grant_check(7, Ok(Some(user(9))), &admin), Err(Reply::Redirect(_))));
    assert!(matches!(
        admins::admin_realm_admin_grant_check(7, Ok(None), &none),
        Err(Reply::NotFound(m)) if m == "User not found in this realm"
    ));
    let done = admins::admin_realm_admin_grant(&session(), 7, 9, Ok(()));
    assert!(done.events[0].action == AuditAction::RoleAssigned);
    assert!(matches!(done.reply, Reply::Redirect(u) if u == format!("/ui/admin/realms/{}", uuid(7))));
    assert!(matches!(admins::admin_realm_admin_grant(&session(), 7, 9, fails(ErrorKind::Other)).reply, Reply::ServerError));
    assert!(matches!(
        admins::admin_realm_admin_revoke_request(true, &session(), &uuid(7), &uuid(2)),
        Err(Reply::BadRequest(m)) if m.starts_with("Refusing to revoke your own admin role")
    ));
    assert!(matches!(admins::admin_realm_admin_revoke_request(true, &session(), &uuid(7), &uuid(9)), Ok((7, 9))));
    assert!(admins::admin_realm_admin_revoke_check(7, &admin).is_ok());
    assert!(matches!(admins::admin_realm_admin_revoke_check(7, &none), Err(Reply::Redirect(_))));
    let gone = admins::admin_realm_admin_revoke(&session(), 7, 9, Ok(()));
    assert!(gone.events[0].action == AuditAction::RoleRevoked);
}

#[test]
fn administrators_are_picked() {
    let params = |q: &str| RealmAdminPickerParams { q: q.to_string() };
    assert!(admins::admin_realm_admin_picker_query(&params(" e ")).is_none());
    assert!(matches!(
        admins::admin_realm_admin_picker_query(&params(" ev ")),
        Some(s) if s.text == "ev" && s.limit == 20
    ));
    assert!(matches!(admins::admin_realm_admin_picker_request(&uuid(7)), Ok(7)));
    assert!(matches!(admins::admin_realm_admin_picker_request("7"), Err(Reply::NotFound(m)) if m == "Realm not found"));
    let realm = RealmRef { id: 7, name: "acme".to_string() };
    match admins::admin_realm_admin_picker(&session(), &realm, &params("ev"), Ok(vec![user(9)])) {
        Reply::Page(p) => assert!(p.users.len() == 1 && p.realm_id == uuid(7) && p.query == "ev"),
        _ => panic!("no page"),
    }
    assert!(matches!(
        admins::admin_realm_admin_picker(&session(), &realm, &params("e"), Ok(vec![user(9)])),
        Reply::Page(p) if p.users.is_empty()
    ));
}

#[test]
fn realms_are_switched() {
    let form = |realm: &str| SwitchRealmForm { realm: realm.to_string(), csrf: "t".to_string(), return_to: None };
    assert!(matches!(realms::admin_switch_realm(false, "system", &form("acme"), None), SwitchReply::Forbidden));
    assert!(matches!(
        realms::admin_switch_realm(true, "system", &form("system"), None),
        SwitchReply::Refused(m) if m == "invalid realm name"
    ));
    assert!(matches!(realms::admin_switch_realm(true, "system", &form(""), None), SwitchReply::Refused(_)));
    assert!(matches!(
        realms::admin_switch_realm(true, "system", &form("acme"), None),
        SwitchReply::Switched { location, cookie }
            if location == "/ui/admin/users?realm=acme"
                && cookie == "hearth_ui_admin_target=acme; HttpOnly; Path=/ui; SameSite=Lax"
    ));
    assert!(matches!(
        realms::admin_switch_realm(true, "system", &form("acme"), Some("/ui/x".to_string())),
        SwitchReply::Switched { location, .. } if location == "/ui/x"
    ));
}

#[test]
fn the_sidebar_lists_all_but_the_system_realm() {
    let pages = vec![
        Page { items: vec![realm(0, "system", false), realm(1, "a", false)], next_cursor: Some("c".to_string()) },
        Page { items: vec![realm(2, "b", true)], next_cursor: None },
    ];
    match realms::admin_api_nav_realms(0, Ok(pages)) {
        Reply::Page(items) => {
            let shown: Vec<(&str, bool)> = items.iter().map(|i| (i.name.as_str(), i.archived)).collect();
            assert_eq!(shown, [("a", false), ("b", true)]);
        }
        _ => panic!("no list"),
    }
    assert!(matches!(realms::admin_api_nav_realms(0, fails(ErrorKind::Other)), Reply::ServerError));
}

#[test]
fn reload_and_test_mail() {
    let ok = realms::admin_api_config_reload(true);
    assert!(!ok.unavailable && ok.status == "ok" && ok.message == "configuration reload triggered");
    let no = realms::admin_api_config_reload(false);
    assert!(no.unavailable && no.status == "error");
    let form = |e: &str| TestEmailForm { csrf: "t".to_string(), email: e.to_string() };
    assert!(matches!(realms::admin_test_email_request(true, &form(" x@y ")), Ok(e) if e == "x@y"));
    assert!(matches!(
        realms::admin_test_email_request(true, &form(" ")),
        Err(Reply::Redirect(u)) if u == "/ui/admin/settings?flash=test_email_empty"
    ));
    assert!(matches!(realms::admin_test_email(None), Reply::Redirect(u) if u.ends_with("test_email_no_transport")));
    assert!(matches!(realms::admin_test_email(Some(Ok(()))), Reply::Redirect(u) if u.ends_with("test_email_sent")));
    assert!(matches!(
        realms::admin_test_email(Some(fails(ErrorKind::Other))),
        Reply::RedirectFlash { url, message, kind: web::FlashKind::Error }
            if url == "/ui/admin/settings?flash=test_email_failed" && message == "boom"
    ));
}

#[test]
fn queries_keep_the_realm() {
    assert_eq!(query::realm_query_string(&None), "");
    assert_eq!(query::realm_query_string(&Some("a=1&realm=acme&b=2".to_string())), "?realm=acme");
    assert_eq!(query::realm_query_string(&Some("a=1".to_string())), "");
    let pieces: Vec<String> = vec!["a=1".to_string(), "realm=x".to_string()];
    assert_eq!(query::find_value(&pieces, "realm="), Some("x".to_string()));
}

#[test]
fn replies_of_the_console() {
    assert_eq!(web::toast_header("Saved", web::FlashKind::Success), web::toast_header("Saved", web::FlashKind::Success));
    let header: serde_json::Value = serde_json::from_str(&web::toast_header("a \"b\"", web::FlashKind::Error)).unwrap();
    assert!(header.to_string().contains("a \\\"b\\\""));
    assert!(web::is_htmx_request(&Some("true".to_string())));
    assert!(!web::is_htmx_request(&None));
    let flash = web::flash_from_query(&Some("m".to_string()), &Some("error".to_string())).unwrap();
    assert!(flash.kind == web::FlashKind::Error && flash.message == "m");
    assert!(web::flash_from_query(&Some("m".to_string()), &None).unwrap().kind == web::FlashKind::Success);
    assert!(web::flash_from_query(&None, &Some("error".to_string())).is_none());
    assert!(web::require_csrf::<()>(true).is_ok());
    assert!(matches!(web::require_csrf::<()>(false), Err(Reply::Forbidden)));
}

#[test]
fn requests_are_read_in_order() {
    assert!(matches!(web::require_one::<()>(true, &uuid(4), "none"), Ok(4)));
    assert!(matches!(web::require_one::<()>(false, "x", "none"), Err(Reply::Forbidden)));
    assert!(matches!(web::require_two::<()>(true, &uuid(4), "a", &uuid(5), "b"), Ok((4, 5))));
    assert!(matches!(web::require_two::<()>(true, "x", "a", "y", "b"), Err(Reply::NotFound(m)) if m == "a"));
    assert!(matches!(web::require_two::<()>(true, &uuid(4), "a", "y", "b"), Err(Reply::NotFound(m)) if m == "b"));
}

#[test]
fn events_name_who_did_what() {
    let event = || web::record_ui(&session(), 7, AuditAction::RealmDeleted, "realm", 4);
    let e = event();
    assert!(e.realm_id == 7 && e.action == AuditAction::RealmDeleted);
    assert_eq!(e.resource_id, uuid(4));
    assert!(e.metadata.len() == 1 && e.metadata[0].0 == "via");
    assert!(matches!(&e.metadata[0].1, web::Meta::Text(t) if t == "ui"));
    let reply = || Reply::<()>::redirect("/ui");
    assert!(web::Outcome::silent(reply()).events.is_empty());
    assert_eq!(web::Outcome::logged(reply(), event()).events.len(), 1);
    assert!(web::Outcome::noted(reply(), None).events.is_empty());
    assert!(matches!(web::Outcome::noted(Reply::<()>::toast("m", web::FlashKind::Success), Some(event())).reply, Reply::Toast { .. }));
}

#[test]
fn addresses_follow_the_routes() {
    let t = |routes: web::Routes| web::TargetRealm { id: 7, name: "acme".to_string(), routes };
    assert_eq!(web::list_url(&t(web::Routes::Flat), "groups"), "/ui/admin/groups?realm=acme");
    assert_eq!(web::list_url(&t(web::Routes::Nested), "groups"), "/ui/admin/realms/acme/groups");
}
