use hearth_web::access::{Assignment, Grant, HeldRole, OrgSummary, Role, RoleScopeKind, Scope};
use hearth_web::members::OrganizationRole;
use hearth_web::sessions::{Page, SessionInfo};
use hearth_web::user_access;
use hearth_web::user_access::{AssignRoleForm, GrantPermissionForm, PermissionRecords, RevokePermissionForm, RoleRecords};
use hearth_web::users;
use hearth_web::users::{
    CreateUserForm, Credential, EditUserForm, ListQuery, OrgNames, RoleAction, User, UserDetailParams, UserListParams,
    UserMembership, UserRecords, UserStatus,
};
use hearth_web::web;
use hearth_web::web::{AuditAction, EngineError, ErrorKind, Reply, Routes, TargetRealm};

fn session() -> web::UiSession {
    web::UiSession {
        realm_id: 1,
        user_id: 2,
        session_id: 3,
        user_email: "ada@example.com".to_string(),
        csrf: Some("t".to_string()),
    }
}

fn site() -> web::Site {
    web::Site {
        product_name: "Hearth".to_string(),
        logo_url: "/logo.svg".to_string(),
        theme_css: "css".to_string(),
        realm_theme_css: None,
    }
}

fn uuid(n: u128) -> String {
    uuid::Uuid::from_u128(n).to_string()
}

fn owned(v: &[&str]) -> Vec<String> {
    v.iter().map(|s| s.to_string()).collect()
}

fn fails<T>(kind: ErrorKind) -> Result<T, EngineError> {
    Err(EngineError { kind, text: "boom".to_string() })
}

fn target() -> TargetRealm {
    TargetRealm { id: 7, name: "acme".to_string(), routes: Routes::Flat }
}

fn user(id: u128) -> User {
    User {
        id,
        email: "eve@example.com".to_string(),
        display_name: "Eve".to_string(),
        first_name: "Eve".to_string(),
        last_name: "Adams".to_string(),
        status: UserStatus::Active,
        created_at: 0,
        updated_at: 60_000_000,
        attributes: vec![("team".to_string(), "b".to_string()), ("dept".to_string(), "a".to_string())],
    }
}

fn role(id: u128, name: &str, permissions: &[&str]) -> Role {
    Role {
        id,
        name: name.to_string(),
        description: Some("d".to_string()),
        scope_kind: RoleScopeKind::Realm,
        permissions: owned(permissions),
    }
}

fn membership(org: Option<OrgNames>) -> UserMembership {
    UserMembership { org_id: 5, role: OrganizationRole::Owner, org }
}

fn records() -> UserRecords {
    let s = |id: u128, expires_at: i64| SessionInfo {
        id,
        user_id: 9,
        created_at: 0,
        last_refreshed_at: 0,
        expires_at,
        revoked: false,
        device_label: None,
        ip_address: None,
    };
    UserRecords {
        sessions: vec![s(1, 100), s(2, 1_000_000_000)],
        mfa_enabled: true,
        credentials: vec![Credential { id_b64url: "0123456789abcdefXYZ".to_string(), algorithm: -7, discoverable: true }],
        memberships: vec![membership(Some(OrgNames { name: "Acme".to_string(), slug: "acme".to_string() }))],
        held: vec![HeldRole {
            assignment: Assignment { id: 21, role_id: 11, scope: Scope::Realm },
            role: Some(role(11, "viewer", &["b", "a"])),
            org_name: None,
        }],
        grants: vec![Grant { permission: "x".to_string(), scope: Scope::Realm, org_name: None }],
        effective: owned(&["a", "b", "x", "hearth.admin"]),
        roles: vec![role(11, "viewer", &["b", "a"])],
        permission_roles: vec![role(11, "viewer", &["b", "a", "c"])],
        orgs: vec![OrgSummary { id: 5, name: "Acme".to_string() }],
    }
}

#[test]
fn statuses_come_back() {
    for s in [UserStatus::Active, UserStatus::Disabled, UserStatus::PendingVerification] {
        assert!(users::parse_user_status(&s.label()) == Some(s));
    }
    assert!(users::parse_user_status("nonsense") == Some(UserStatus::Active));
}

#[test]
fn lists_search_or_browse() {
    assert!(matches!(users::list_query("ev", &None, 7), ListQuery::Search { text, limit: 7 } if text == "ev"));
    assert!(matches!(users::list_query("e", &Some("c".to_string()), 7), ListQuery::Browse { cursor: Some(c), limit: 20 } if c == "c"));
    let params = UserListParams { cursor: None, q: Some("eve".to_string()) };
    match users::admin_users_list(&site(), &session(), &target(), &params, Ok(Page { items: vec![user(9)], next_cursor: None })) {
        Reply::Page(p) => {
            assert_eq!(p.users.len(), 1);
            assert_eq!(p.search_query, "eve");
            assert_eq!(p.target_realm_name, Some("acme".to_string()));
            assert_eq!(p.target_query, "?realm=acme");
        }
        _ => panic!("no page"),
    }
    assert!(matches!(
        users::admin_users_list(&site(), &session(), &target(), &params, fails(ErrorKind::Other)),
        Reply::ServerError
    ));
    assert!(matches!(
        users::admin_admin_users_list(&site(), &session(), &params, Ok(Page { items: vec![], next_cursor: None })),
        Reply::Page(p) if p.target_realm_name.is_none()
    ));
}

fn create_form() -> CreateUserForm {
    CreateUserForm {
        email: "eve@example.com".to_string(),
        display_name: "Eve".to_string(),
        first_name: String::new(),
        last_name: String::new(),
        password: "pw".to_string(),
        csrf: "t".to_string(),
    }
}

#[test]
fn users_are_created() {
    assert!(matches!(users::admin_user_create_submit_request(false, &create_form()), Err(Reply::Forbidden)));
    assert!(matches!(
        users::admin_user_create_submit_request(true, &create_form()),
        Ok(r) if r.email == "eve@example.com" && r.display_name == "Eve"
    ));
    let setup = users::admin_user_create_submit_setup(&create_form(), 9);
    assert_eq!((setup.user_id, setup.password.as_str()), (9, "pw"));
    assert!(setup.status == UserStatus::Active);
    let done = users::admin_user_create_submit(&site(), &session(), &target(), &create_form(), Ok(9));
    assert!(matches!(done.reply, Reply::Redirect(u) if u == format!("/ui/admin/users/{}?realm=acme", uuid(9))));
    assert!(done.events.len() == 1 && done.events[0].action == AuditAction::UserCreated);
    let dup = users::admin_user_create_submit(&site(), &session(), &target(), &create_form(), fails(ErrorKind::DuplicateEmail));
    assert!(dup.events.is_empty());
    assert!(matches!(dup.reply, Reply::Page(p) if p.error.is_some() && p.form_email == "eve@example.com"));
}

#[test]
fn a_user_is_shown() {
    let params = UserDetailParams { flash: Some("mfa_disabled".to_string()) };
    match users::admin_user_detail(&site(), &session(), 9, &params, Ok(Some(user(9))), records(), 500) {
        Reply::Page(p) => {
            assert_eq!(p.user_id, uuid(9));
            assert_eq!(p.flash_message, Some("MFA has been disabled for this user.".to_string()));
            assert!(p.is_user_admin && p.mfa_enabled);
            assert!(p.sessions[0].expired && !p.sessions[1].expired);
            assert_eq!(p.webauthn_credentials[0].id_short, "0123456789abcdef...");
            assert_eq!(p.org_memberships[0].org_slug, "acme");
            assert_eq!(p.attributes[0].0, "dept");
            assert_eq!(p.attributes[1].0, "team");
            assert_eq!(p.created_at_display, "1970-01-01 00:00 UTC");
            assert_eq!(p.updated_at_display, "1970-01-01 00:01 UTC");
            assert_eq!(p.available_permissions, ["c"]);
            assert_eq!(p.role_perms_json, format!("{{\"{}\":[\"a\",\"b\"]}}", uuid(11)));
            assert_eq!(p.role_inherited_groups.len(), 1);
        }
        _ => panic!("no page"),
    }
    assert!(matches!(
        users::admin_user_detail(&site(), &session(), 9, &params, Ok(None), records(), 500),
        Reply::NotFoundAuthed(m) if m == "User not found"
    ));
    assert!(matches!(users::admin_user_detail_request(&uuid(9)), Ok(9)));
    assert!(matches!(users::admin_user_detail_request("zz"), Err(Reply::NotFoundAuthed(m)) if m == "User not found"));
    assert!(matches!(
        users::admin_user_detail(&site(), &session(), 9, &params, fails(ErrorKind::Other), records(), 500),
        Reply::ServerError
    ));
    assert!(matches!(users::user_request("zz"), Err(Reply::NotFound(_))));
}

#[test]
fn messages_of_redirects() {
    assert_eq!(users::flash_message(&None), None);
    assert_eq!(users::flash_message(&Some("role_assigned".to_string())), Some("Role assigned.".to_string()));
    assert_eq!(users::flash_message(&Some("anything".to_string())), Some("anything".to_string()));
}

#[test]
fn credentials_are_revoked() {
    assert!(matches!(
        users::admin_user_revoke_webauthn_request(&uuid(9), "AQID"),
        Ok((9, bytes)) if bytes == [1, 2, 3]
    ));
    assert!(users::admin_user_revoke_webauthn_request(&uuid(9), "A?").is_err());
    assert!(users::admin_user_revoke_webauthn_request("x", "AQID").is_err());
    assert!(users::credential_to_revoke(Some(9), Some(vec![1])).is_ok());
    assert!(users::credential_to_revoke(None, Some(vec![1])).is_err());
    assert!(matches!(
        users::admin_user_revoke_webauthn(&uuid(9)),
        Reply::Redirect(u) if u == format!("/ui/admin/users/{}?flash=webauthn_revoked", uuid(9))
    ));
}

#[test]
fn the_admin_role_is_set() {
    let a = |id: u128, role_id: u128| Assignment { id, role_id, scope: Scope::Realm };
    match users::set_user_admin(9, true, Ok(()), Ok(Some(11)), Ok(vec![])) {
        Ok(actions) => assert!(matches!(
            actions[..],
            [RoleAction::Assign { user_id: 9, role_id: 11, scope: Scope::Realm, assigned_by: None }]
        )),
        Err(_) => panic!("refused"),
    }
    match users::set_user_admin(9, false, Ok(()), Ok(Some(11)), Ok(vec![a(1, 11), a(2, 12), a(3, 11)])) {
        Ok(actions) => assert!(matches!(actions[..], [RoleAction::Unassign(1), RoleAction::Unassign(3)])),
        Err(_) => panic!("refused"),
    }
    assert!(matches!(
        users::set_user_admin(9, true, Ok(()), Ok(None), Ok(vec![])),
        Err(e) if matches!(e.kind, ErrorKind::RoleNotFound)
    ));
    assert!(users::set_user_admin(9, true, fails(ErrorKind::Other), Ok(Some(11)), Ok(vec![])).is_err());
    assert!(users::set_user_admin(9, false, Ok(()), Ok(Some(11)), fails(ErrorKind::Other)).is_err());
    assert!(users::check_user_admin(&owned(&["a", "hearth.admin"])));
    assert!(!users::check_user_admin(&owned(&["hearth.administrator"])));
}

fn edit_form(admin: Option<&str>) -> EditUserForm {
    EditUserForm {
        email: "eve@example.com".to_string(),
        display_name: "Eve".to_string(),
        first_name: "E".to_string(),
        last_name: "A".to_string(),
        status: UserStatus::Disabled.label(),
        admin: admin.map(String::from),
        csrf: "t".to_string(),
    }
}

#[test]
fn users_are_edited() {
    let m = vec![membership(None)];
    match users::admin_user_edit_form(&site(), &session(), Ok(Some(user(9))), &owned(&["hearth.admin"]), &m) {
        Reply::Page(p) => {
            assert!(p.is_user_admin && p.error.is_none());
            assert_eq!(p.form_email, "eve@example.com");
            assert_eq!(p.form_status, UserStatus::Active.label());
        }
        _ => panic!("no page"),
    }
    match users::admin_user_edit_submit_request(true, &uuid(9), &edit_form(None)) {
        Ok(r) => assert!(r.user_id == 9 && r.status == Some(UserStatus::Disabled)),
        Err(_) => panic!("refused"),
    }
    assert!(matches!(users::admin_user_edit_submit_request(true, "x", &edit_form(None)), Err(Reply::NotFound(_))));
    assert!(matches!(users::admin_user_edit_submit_request(false, "x", &edit_form(None)), Err(Reply::Forbidden)));
    assert_eq!(users::admin_user_edit_submit_toggle(&edit_form(Some("on")), &owned(&[])), Some(true));
    assert_eq!(users::admin_user_edit_submit_toggle(&edit_form(None), &owned(&["hearth.admin"])), Some(false));
    assert_eq!(users::admin_user_edit_submit_toggle(&edit_form(None), &owned(&[])), None);
    let done = users::admin_user_edit_submit(
        &site(), &session(), 7, 9, &edit_form(None), Ok(()), Some(true), Some(user(9)), &owned(&[]), &m,
    );
    assert_eq!(done.events.len(), 2);
    assert!(matches!(done.reply, Reply::Redirect(u) if u == format!("/ui/admin/users/{}", uuid(9))));
    let dup = users::admin_user_edit_submit(
        &site(), &session(), 7, 9, &edit_form(None), fails(ErrorKind::DuplicateEmail), None, Some(user(9)), &owned(&[]), &m,
    );
    assert!(dup.events.is_empty() && matches!(dup.reply, Reply::Page(p) if p.error.is_some()));
    let gone = users::admin_user_edit_submit(
        &site(), &session(), 7, 9, &edit_form(None), fails(ErrorKind::UserNotFound), None, None, &owned(&[]), &m,
    );
    assert!(matches!(gone.reply, Reply::NotFound(_)));
}

#[test]
fn users_are_deleted() {
    assert!(matches!(users::admin_user_delete_request(true, &uuid(9)), Ok(9)));
    let done = users::admin_user_delete(&session(), 7, 9, Ok(()));
    assert!(done.events[0].action == AuditAction::UserDeleted);
    assert!(matches!(done.reply, Reply::Redirect(u) if u == "/ui/admin/users"));
    let gone = users::admin_user_delete(&session(), 7, 9, fails(ErrorKind::UserNotFound));
    assert!(matches!(gone.reply, Reply::NotFound(_)) && gone.events.is_empty());
    let failed = users::admin_user_delete(&session(), 7, 9, fails(ErrorKind::Other));
    assert!(matches!(failed.reply, Reply::ServerError));
}

fn role_records() -> RoleRecords {
    let r = records();
    RoleRecords { held: r.held, roles: r.roles, orgs: r.orgs }
}

fn permission_records() -> PermissionRecords {
    let r = records();
    PermissionRecords { held: r.held, grants: r.grants, effective: r.effective, roles: r.permission_roles, orgs: r.orgs }
}

#[test]
fn tabs_are_rendered() {
    let roles = user_access::render_roles_tab(&session(), 9, &role_records());
    assert_eq!(roles.user_id, uuid(9));
    assert_eq!(roles.role_assignments.len(), 1);
    assert_eq!(roles.csrf, Some("t".to_string()));
    assert_eq!(roles.role_perms_json, format!("{{\"{}\":[\"a\",\"b\"]}}", uuid(11)));
    let perms = user_access::render_permissions_tab(&session(), 9, &permission_records());
    assert_eq!(perms.extra_permissions[0].permission, "x");
    assert_eq!(perms.available_permissions, ["c"]);
}

#[test]
fn roles_are_assigned_and_removed() {
    let form = |role: &str, scope: &str| AssignRoleForm {
        csrf: "t".to_string(),
        role_id: role.to_string(),
        scope: scope.to_string(),
    };
    let s = session();
    match user_access::admin_user_assign_role_request(true, &s, &uuid(9), &form(&uuid(11), "realm"), true) {
        Ok(r) => assert!((r.user_id, r.role_id, r.assigned_by) == (9, 11, 2) && matches!(r.scope, Scope::Realm)),
        Err(_) => panic!("refused"),
    }
    assert!(matches!(
        user_access::admin_user_assign_role_request(false, &s, &uuid(9), &form(&uuid(11), "realm"), true),
        Err(Reply::Forbidden)
    ));
    assert!(user_access::admin_user_assign_role_request(true, &s, "x", &form(&uuid(11), "realm"), true).is_err());
    assert!(user_access::admin_user_assign_role_request(true, &s, &uuid(9), &form("x", "realm"), true).is_err());
    assert!(user_access::admin_user_assign_role_request(true, &s, &uuid(9), &form(&uuid(11), "moon"), false).is_err());
    let f = form(&uuid(11), "realm");
    let done = user_access::admin_user_assign_role(&s, 7, &uuid(9), 9, &f, true, Ok(()), &role_records());
    assert!(done.events[0].action == AuditAction::RoleAssigned);
    assert!(matches!(done.reply, Reply::Page(_)));
    let plain = user_access::admin_user_assign_role(&s, 7, &uuid(9), 9, &f, false, Ok(()), &role_records());
    assert!(matches!(plain.reply, Reply::Redirect(u) if u.ends_with("flash=role_assigned")));
    let failed = user_access::admin_user_assign_role(&s, 7, &uuid(9), 9, &f, true, fails(ErrorKind::Other), &role_records());
    assert!(failed.events.is_empty());
    let a = uuid(21);
    assert!(matches!(user_access::admin_user_unassign_role_request(true, &uuid(9), &a), Ok((9, 21))));
    let removed = user_access::admin_user_unassign_role(&s, 7, &uuid(9), 9, &a, false, Ok(()), &role_records());
    assert!(removed.events[0].action == AuditAction::RoleRevoked);
    assert!(matches!(removed.reply, Reply::Redirect(u) if u.ends_with("flash=role_unassigned")));
}

#[test]
fn permissions_are_granted_and_revoked() {
    let s = session();
    let form = GrantPermissionForm { csrf: "t".to_string(), permission: " docs.read ".to_string(), scope: "realm".to_string() };
    assert_eq!(user_access::admin_user_grant_permission_text(&form), "docs.read");
    let parsed = || Some("docs.read".to_string());
    let request = match user_access::admin_user_grant_permission_request(true, &s, &uuid(9), parsed(), &form, true) {
        Ok(r) => r,
        Err(_) => panic!("refused"),
    };
    assert_eq!((request.user_id, request.permission.as_str(), request.granted_by), (9, "docs.read", 2));
    assert!(user_access::admin_user_grant_permission_request(true, &s, &uuid(9), None, &form, true).is_err());
    let done = user_access::admin_user_grant_permission(&s, 7, &uuid(9), &request, &form, true, Ok(()), &permission_records());
    assert!(done.events[0].action == AuditAction::UserPermissionGranted);
    assert!(matches!(done.reply, Reply::Page(_)));
    let revoke = RevokePermissionForm { csrf: "t".to_string(), permission: "docs.read".to_string(), scope: "realm".to_string() };
    let request = match user_access::admin_user_revoke_permission_request(true, &uuid(9), parsed(), &revoke, false) {
        Ok(r) => r,
        Err(_) => panic!("refused"),
    };
    let done = user_access::admin_user_revoke_permission(&s, 7, &uuid(9), &request, &revoke, false, Ok(()), &permission_records());
    assert!(done.events[0].action == AuditAction::UserPermissionRevoked);
    assert!(matches!(done.reply, Reply::Redirect(u) if u.ends_with("flash=permission_revoked")));
    let failed = user_access::admin_user_revoke_permission(
        &s, 7, &uuid(9), &request, &revoke, true, fails(ErrorKind::Other), &permission_records(),
    );
    assert!(failed.events.is_empty());
}

#[test]
fn user_lists_ask_by_the_search_text() {
    let params = |q: Option<&str>| UserListParams { cursor: Some("c".to_string()), q: q.map(|s| s.to_string()) };
    assert!(matches!(users::admin_users_list_query(&params(Some("eve"))), ListQuery::Search { text, limit: 20 } if text == "eve"));
    assert!(matches!(users::admin_users_list_query(&params(None)), ListQuery::Browse { cursor: Some(c), limit: 20 } if c == "c"));
}

#[test]
fn the_new_user_form_keeps_the_realm() {
    match users::admin_user_create_form(&site(), &session(), &Some("x=1&realm=acme".to_string())) {
        Reply::Page(p) => assert!(p.target_query == "?realm=acme" && p.error.is_none() && p.form_email.is_empty()),
        _ => panic!("no page"),
    }
    assert!(matches!(
        users::admin_user_create_form(&site(), &session(), &None),
        Reply::Page(p) if p.target_query.is_empty()
    ));
}

#[test]
fn identifiers_are_cut_short() {
    assert_eq!(users::shorten_id("0123456789abcdef"), "0123456789abcdef");
    assert_eq!(users::shorten_id("0123456789abcdefg"), "0123456789abcdef...");
}

#[test]
fn attributes_are_listed_by_key() {
    let u = user(9);
    let keys: Vec<String> = users::sorted_attributes(&u.attributes).into_iter().map(|p| p.0).collect();
    assert_eq!(keys, ["dept", "team"]);
}

#[test]
fn actions_on_a_user_lead_back_to_the_user() {
    assert!(matches!(users::admin_user_send_reset_email(Ok(Some(user(9)))), Ok(e) if e == "eve@example.com"));
    assert!(matches!(users::admin_user_send_reset_email(Ok(None)), Err(Reply::NotFound(m)) if m == "User not found"));
    assert!(matches!(users::admin_user_send_reset_email(fails(ErrorKind::Other)), Err(Reply::ServerError)));
    let leads = |r: Reply<()>, to: &str| matches!(r, Reply::Redirect(u) if u.starts_with("/ui/admin/users/9") && u.ends_with(to));
    assert!(leads(users::admin_user_send_reset("9"), "reset_sent"));
    assert!(leads(users::admin_user_disable_mfa("9"), "mfa_disabled"));
    assert!(leads(users::admin_user_revoke_session("9"), "session_revoked"));
    assert!(matches!(users::admin_user_revoke_session_request(&uuid(3)), Ok(3)));
    assert!(matches!(users::admin_user_revoke_session_request("3"), Err(Reply::NotFound(_))));
}

#[test]
fn memberships_without_an_organization_show_its_identifier() {
    let known = membership(Some(OrgNames { name: "Acme".to_string(), slug: "acme".to_string() }));
    let shown = users::resolve_user_org_memberships(&vec![known, membership(None)]);
    assert_eq!(shown[0].org_name, "Acme");
    assert_eq!(shown[1].org_name, uuid(5));
}

#[test]
fn a_refused_edit_shows_what_was_typed() {
    let form = EditUserForm {
        email: "new@example.com".to_string(),
        display_name: "N".to_string(),
        first_name: "A".to_string(),
        last_name: "B".to_string(),
        status: "disabled".to_string(),
        admin: None,
        csrf: "t".to_string(),
    };
    match users::render_edit_error(&site(), &session(), Some(user(9)), &owned(&[]), &vec![membership(None)], "no", &form) {
        Reply::Page(p) => {
            assert_eq!(p.error, Some("no".to_string()));
            assert_eq!(p.form_email, "new@example.com");
            assert_eq!(p.form_status, "disabled");
            assert_eq!(p.user.id, 9);
        }
        _ => panic!("no page"),
    }
    assert!(matches!(
        users::render_edit_error(&site(), &session(), None, &owned(&[]), &vec![], "no", &form),
        Reply::NotFound(_)
    ));
}

#[test]
fn what_a_role_gives_is_not_offered() {
    let params = UserDetailParams { flash: None };
    let mut given = records();
    given.grants.push(Grant { permission: "a".to_string(), scope: Scope::Realm, org_name: None });
    match users::admin_user_detail(&site(), &session(), 9, &params, Ok(Some(user(9))), given, 500) {
        Reply::Page(p) => assert_eq!(p.available_permissions, ["c"]),
        _ => panic!("no page"),
    }
}
