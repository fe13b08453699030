use hearth_web::access::{Assignment, Grant, HeldRole, Role, RoleScopeKind, Scope};
use hearth_web::members::{Membership, OrganizationRole, Person};
use hearth_web::org_members;
use hearth_web::org_members::{
    AddMemberForm, InvitationAction, InviteForm, MemberAssignRoleForm, MemberGrantPermForm, MemberPickerParams, MemberRevokePermForm,
    RowRecords, UpdateRoleForm, UserSearchParams,
};
use hearth_web::orgs;
use hearth_web::orgs::{
    BulkDeleteOrgsForm, CreateOrgForm, EditOrgForm, Invitation, MemberRecord, OrgDeletion, OrgDetailParams,
    OrgListParams, OrgRecords, Organization, OrganizationStatus, StatusToggleForm,
};
use hearth_web::sessions::Page;
use hearth_web::users::ListQuery;
use hearth_web::web;
use hearth_web::web::{AuditAction, EngineError, ErrorKind, FlashKind, Reply, Routes, TargetRealm};

fn session() -> web::UiSession {
    web::UiSession {
        realm_id: 7,
        user_id: 2,
        session_id: 3,
        user_email: "ada@example.com".to_string(),
        csrf: Some("t".to_string()),
    }
}

fn site() -> web::Site {
    web::Site {
        product_name: "Hearth".to_string(),
        logo_url: "/logo.svg".to_string(),
        theme_css: "css".to_string(),
        realm_theme_css: None,
    }
}

fn uuid(n: u128) -> String {
    uuid::Uuid::from_u128(n).to_string()
}

fn fails<T>(kind: ErrorKind) -> Result<T, EngineError> {
    Err(EngineError { kind, text: "boom".to_string() })
}

fn target() -> TargetRealm {
    TargetRealm { id: 7, name: "acme".to_string(), routes: Routes::Flat }
}

fn org(id: u128, name: &str, slug: &str) -> Organization {
    Organization {
        id,
        name: name.to_string(),
        slug: slug.to_string(),
        description: "d".to_string(),
        status: OrganizationStatus::Active,
        max_members: Some(3),
    }
}

fn member(user_id: u128, role: OrganizationRole) -> MemberRecord {
    MemberRecord {
        membership: Membership { org_id: 5, user_id, role },
        person: Some(Person { display_name: "Eve".to_string(), email: "eve@example.com".to_string() }),
        held: vec![HeldRole {
            assignment: Assignment { id: 21, role_id: 11, scope: Scope::Org(5) },
            role: Some(role11()),
            org_name: None,
        }],
        grants: vec![Grant { permission: "docs.write".to_string(), scope: Scope::Org(5), org_name: None }],
    }
}

fn role11() -> Role {
    Role {
        id: 11,
        name: "reader".to_string(),
        description: None,
        scope_kind: RoleScopeKind::Organization,
        permissions: vec!["docs.read".to_string()],
    }
}

fn row_records(role: OrganizationRole) -> Option<RowRecords> {
    Some(RowRecords {
        member: member(9, role),
        memberships: vec![Membership { org_id: 5, user_id: 9, role }],
        roles: vec![role11()],
        permission_roles: vec![role11()],
    })
}

#[test]
fn org_statuses_come_back() {
    for s in [OrganizationStatus::Active, OrganizationStatus::Suspended] {
        assert!(orgs::parse_org_status(&s.label()) == Some(s));
    }
    assert!(orgs::parse_org_status("nonsense").is_none());
}

#[test]
fn searches_find_names_and_slugs() {
    let all = || vec![org(1, "Acme Corp", "acme"), org(2, "Beta", "corp-b"), org(3, "Gamma", "g")];
    let ids = |v: Vec<Organization>| v.iter().map(|o| o.id).collect::<Vec<_>>();
    assert_eq!(ids(orgs::search_orgs(all(), "CORP")), [1, 2]);
    assert_eq!(ids(orgs::search_orgs(all(), "zz")), [0u128; 0]);
    let params = OrgListParams { cursor: None, q: Some("corp".to_string()) };
    assert!(matches!(orgs::admin_orgs_list_query(&params), ListQuery::Search { limit: 200, .. }));
    match orgs::admin_orgs_list(&site(), &session(), &target(), &params, Ok(Page { items: all(), next_cursor: Some("c".to_string()) })) {
        Reply::Page(p) => {
            assert_eq!(ids(p.organizations), [1, 2]);
            assert_eq!(p.search_query, "corp");
            assert_eq!(p.realm_name, "acme");
        }
        _ => panic!("no page"),
    }
    assert!(matches!(
        orgs::admin_orgs_list(&site(), &session(), &target(), &params, fails(ErrorKind::Other)),
        Reply::ServerError
    ));
}

fn create_form() -> CreateOrgForm {
    CreateOrgForm {
        name: "Acme".to_string(),
        slug: "acme".to_string(),
        description: String::new(),
        max_members: Some(3),
        csrf: "t".to_string(),
    }
}

#[test]
fn organizations_are_created() {
    assert!(matches!(orgs::admin_org_create_form(&site(), &session(), &target()), Reply::Page(p) if p.error.is_none()));
    match orgs::admin_org_create_submit_request(true, &create_form()) {
        Ok(r) => assert!(r.name == "Acme" && r.description.is_none() && r.max_members == Some(3)),
        Err(_) => panic!("refused"),
    }
    assert!(matches!(orgs::admin_org_create_submit_request(false, &create_form()), Err(Reply::Forbidden)));
    assert_eq!(orgs::filled(""), None);
    assert_eq!(orgs::filled("x"), Some("x".to_string()));
    assert_eq!(orgs::admin_org_create_submit_owner(&session(), &target()), Some(2));
    let elsewhere = TargetRealm { id: 8, name: "b".to_string(), routes: Routes::Flat };
    assert_eq!(orgs::admin_org_create_submit_owner(&session(), &elsewhere), None);
    let done = orgs::admin_org_create_submit(&site(), &session(), &target(), &create_form(), Ok(5), true);
    assert!(done.events.iter().any(|e| e.action == AuditAction::OrgCreated));
    assert!(matches!(done.reply, Reply::Redirect(u) if u.contains(&uuid(5))));
    let dup = orgs::admin_org_create_submit(&site(), &session(), &target(), &create_form(), fails(ErrorKind::DuplicateOrgSlug), false);
    assert!(dup.events.is_empty() && matches!(dup.reply, Reply::Page(p) if p.error.is_some() && p.form_name == "Acme"));
}

#[test]
fn an_organization_is_shown() {
    let records = || OrgRecords {
        members: vec![member(9, OrganizationRole::Owner), member(10, OrganizationRole::Member)],
        invitations: vec![Invitation { id: 1, email: "x@y".to_string(), role: OrganizationRole::Admin }],
        roles: vec![role11()],
        permission_roles: vec![role11()],
    };
    let params = OrgDetailParams { flash: Some("hi".to_string()), flash_kind: Some("error".to_string()), tab: None };
    match orgs::admin_org_detail(&site(), &session(), &target(), 5, &params, None, Ok(Some(org(5, "Acme", "acme"))), records()) {
        Reply::Page(p) => {
            assert_eq!(p.org_id, uuid(5));
            assert_eq!(p.member_count, 2);
            assert!(p.members[0].is_last_owner && !p.members[1].is_last_owner);
            assert_eq!(p.members[0].rbac_roles.len(), 1);
            assert_eq!(p.invitations.len(), 1);
            assert!(orgs::clears_flash(&p));
            let flash = p.chrome.flash.unwrap();
            assert!(flash.kind == FlashKind::Error && flash.message == "hi");
        }
        _ => panic!("no page"),
    }
    let cookie = Some(web::Flash::success("saved".to_string()));
    assert!(matches!(
        orgs::admin_org_detail(&site(), &session(), &target(), 5, &params, cookie, Ok(Some(org(5, "A", "a"))), records()),
        Reply::Page(p) if p.chrome.flash.as_ref().unwrap().message == "saved" && orgs::clears_flash(&p)
    ));
    let plain = OrgDetailParams { flash: None, flash_kind: None, tab: None };
    assert!(matches!(
        orgs::admin_org_detail(&site(), &session(), &target(), 5, &plain, None, Ok(Some(org(5, "A", "a"))), records()),
        Reply::Page(p) if p.chrome.flash.is_none() && !orgs::clears_flash(&p)
    ));
    assert!(matches!(
        orgs::admin_org_detail(&site(), &session(), &target(), 5, &params, None, Ok(None), records()),
        Reply::NotFound(m) if m == "Organization not found"
    ));
    assert!(matches!(orgs::org_request("x"), Err(Reply::NotFound(_))));
}

#[test]
fn organizations_are_edited() {
    let form = EditOrgForm {
        name: "New".to_string(),
        description: "d".to_string(),
        status: OrganizationStatus::Suspended.label(),
        max_members: None,
        csrf: "t".to_string(),
    };
    match orgs::admin_org_edit_submit_request(true, &uuid(5), &form) {
        Ok(r) => assert!(r.org_id == 5 && r.status == Some(OrganizationStatus::Suspended)),
        Err(_) => panic!("refused"),
    }
    let done = orgs::admin_org_edit_submit(&session(), &target(), 5, Ok(()));
    assert!(done.events[0].action == AuditAction::OrgUpdated);
    assert!(matches!(
        orgs::admin_org_edit_submit(&session(), &target(), 5, fails(ErrorKind::OrganizationNotFound)).reply,
        Reply::NotFound(_)
    ));
    assert!(matches!(
        orgs::admin_org_edit_form(&site(), &session(), &target(), Ok(Some(org(5, "Acme", "acme")))),
        Reply::Page(p) if p.form_name == "Acme" && p.form_max_members == Some(3)
    ));
    let toggle = |s: &str| StatusToggleForm { status: s.to_string(), csrf: "t".to_string() };
    let suspended = OrganizationStatus::Suspended.label();
    assert!(matches!(
        orgs::admin_org_status_toggle_request(true, &target(), &uuid(5), &toggle(&suspended)),
        Ok(r) if r.status == Some(OrganizationStatus::Suspended) && r.name.is_none()
    ));
    assert!(orgs::admin_org_status_toggle_request(true, &target(), &uuid(5), &toggle("x")).is_err());
    let toggled = orgs::admin_org_status_toggle(&target(), 5, OrganizationStatus::Suspended, Ok(()));
    assert!(matches!(toggled.reply, Reply::RedirectFlash { kind: FlashKind::Success, .. }));
}

#[test]
fn organizations_are_deleted() {
    let done = orgs::admin_org_delete(&session(), &target(), 5, Ok(()));
    assert!(done.events[0].action == AuditAction::OrgDeleted);
    assert!(matches!(done.reply, Reply::Redirect(u) if u == "/ui/admin/organizations?realm=acme"));
    let form = BulkDeleteOrgsForm { ids: format!("{}, x,{}", uuid(1), uuid(2)), csrf: "t".to_string() };
    assert!(matches!(orgs::admin_orgs_bulk_delete_request(true, &form), Ok(ids) if ids == [1, 2]));
    assert!(matches!(orgs::admin_orgs_bulk_delete_request(false, &form), Err(Reply::Forbidden)));
    let done = orgs::admin_orgs_bulk_delete(&session(), &target(), &vec![
        OrgDeletion { org_id: 1, result: Ok(()) },
        OrgDeletion { org_id: 2, result: fails(ErrorKind::Other) },
    ]);
    assert_eq!(done.events.len(), 1);
    assert_eq!(done.events[0].resource_id, uuid(1));
}

#[test]
fn members_are_added() {
    let form = |user: &str| AddMemberForm { user_id: user.to_string(), role: "Admin".to_string(), csrf: "t".to_string() };
    let m = match org_members::admin_org_add_member_request(true, &target(), &uuid(5), &form(&uuid(9))) {
        Ok(m) => m,
        Err(_) => panic!("refused"),
    };
    assert!(m.org_id == 5 && m.user_id == 9 && m.role == OrganizationRole::Admin);
    assert!(org_members::admin_org_add_member_request(true, &target(), &uuid(5), &form("x")).is_err());
    let done = org_members::admin_org_add_member(&session(), &target(), m, Ok(()));
    assert!(!done.events.is_empty() && matches!(done.reply, Reply::RedirectFlash { kind: FlashKind::Success, .. }));
    let again = Membership { org_id: 5, user_id: 9, role: OrganizationRole::Admin };
    let failed = org_members::admin_org_add_member(&session(), &target(), again, fails(ErrorKind::AlreadyMember));
    assert!(failed.events.is_empty() && matches!(failed.reply, Reply::RedirectFlash { kind: FlashKind::Error, .. }));
}

#[test]
fn roles_of_members_are_changed() {
    let form = UpdateRoleForm { role: "Owner".to_string(), csrf: "t".to_string() };
    let old = Some(OrganizationRole::Member);
    let done = org_members::admin_org_update_role(
        &session(), &target(), 5, 9, &form, true, old, Ok(()), &row_records(OrganizationRole::Owner),
    );
    match done.reply {
        Reply::Page(row) => {
            assert!(row.hx_trigger.contains("success"));
            assert!(row.row.m.is_last_owner);
        }
        _ => panic!("no row"),
    }
    assert_eq!(done.events.len(), 2);
    let plain = org_members::admin_org_update_role(
        &session(), &target(), 5, 9, &form, false, old, Ok(()), &row_records(OrganizationRole::Owner),
    );
    assert!(matches!(plain.reply, Reply::RedirectFlash { kind: FlashKind::Success, .. }));
    let failed = org_members::admin_org_update_role(
        &session(), &target(), 5, 9, &form, false, old, fails(ErrorKind::Other), &row_records(OrganizationRole::Owner),
    );
    assert!(failed.events.is_empty());
}

#[test]
fn members_are_removed() {
    assert!(matches!(org_members::member_request(true, &uuid(5), &uuid(9)), Ok((5, 9))));
    let prior = Some(OrganizationRole::Member);
    let done = org_members::admin_org_remove_member(
        &session(), &target(), 5, 9, false, prior, Ok(()), &row_records(OrganizationRole::Member),
    );
    assert!(done.events.iter().any(|e| e.action == AuditAction::RoleRevoked));
    let failed = org_members::admin_org_remove_member(
        &session(), &target(), 5, 9, true, prior, fails(ErrorKind::Other), &row_records(OrganizationRole::Member),
    );
    assert!(failed.events.is_empty());
}

#[test]
fn pickers_search() {
    let params = |q: &str| MemberPickerParams { q: q.to_string(), cursor: Some("c".to_string()) };
    assert!(matches!(org_members::admin_org_member_picker_query(&params(" ev ")), ListQuery::Search { text, limit: 20 } if text == "ev"));
    assert!(matches!(org_members::admin_org_member_picker_query(&params("e")), ListQuery::Browse { cursor: Some(_), limit: 20 }));
    for short in [" e ", "", "\u{e9}", " \u{1f600}"] {
        assert!(org_members::user_search_query(&UserSearchParams { q: short.to_string() }).is_none());
    }
    assert!(matches!(
        org_members::user_search_query(&UserSearchParams { q: "eve".to_string() }),
        Some(s) if s.text == "eve" && s.limit == 10
    ));
    let found = org_members::admin_api_user_search(&site(), &UserSearchParams { q: "eve".to_string() }, fails(ErrorKind::Other));
    assert!(matches!(found, Reply::Page(p) if p.users.is_empty() && p.query == "eve"));
}

#[test]
fn invitations() {
    let form = InviteForm { email: "x@y".to_string(), role: "Admin".to_string(), csrf: "t".to_string() };
    match org_members::admin_org_invite_request(true, &session(), &uuid(5), &form) {
        Ok(r) => assert!(r.org_id == 5 && r.email == "x@y" && r.role == OrganizationRole::Admin && r.invited_by == 2),
        Err(_) => panic!("refused"),
    }
    assert!(matches!(
        org_members::admin_org_invite(&target(), 5, &form, Ok(())),
        Reply::RedirectFlash { kind: FlashKind::Success, message, .. } if message.contains("x@y")
    ));
    let base = Some("https://id.example.com".to_string());
    let mail = org_members::invitation_mail(&session(), "x@y", "tok en", &base, &Some("Acme".to_string()));
    assert!(mail.accept_url.starts_with("https://id.example.com/"));
    assert_eq!((mail.to.as_str(), mail.org_name.as_str()), ("x@y", "Acme"));
    assert!(matches!(org_members::invitation_request(true, &uuid(5), &uuid(6)), Ok((5, 6))));
    let listed = Ok(vec![Invitation { id: 6, email: "x@y".to_string(), role: OrganizationRole::Owner }]);
    let mut actions = match org_members::admin_org_resend_invite_actions(&session(), &target(), 5, 6, &listed) {
        Ok(actions) => actions.into_iter(),
        Err(_) => panic!("refused"),
    };
    assert!(matches!(actions.next(), Some(InvitationAction::Revoke(6))));
    let request = match actions.next() {
        Some(InvitationAction::Create(request)) => request,
        _ => panic!("nothing new"),
    };
    assert!(actions.next().is_none());
    assert!(request.org_id == 5 && request.invited_by == 2);
    assert!(request.email == "x@y" && request.role == OrganizationRole::Owner);
    assert!(matches!(
        org_members::admin_org_resend_invite_actions(&session(), &target(), 5, 7, &listed),
        Err(Reply::NotFound(m)) if m == "Invitation not found"
    ));
    assert!(matches!(
        org_members::admin_org_resend_invite_actions(&session(), &target(), 5, 6, &fails(ErrorKind::Other)),
        Err(Reply::RedirectFlash { kind: FlashKind::Error, message, .. }) if message == "Failed to load invitation"
    ));
    assert!(matches!(
        org_members::admin_org_resend_invite(&target(), &request, Ok(())),
        Reply::RedirectFlash { kind: FlashKind::Success, .. }
    ));
    assert!(matches!(
        org_members::admin_org_resend_invite(&target(), &request, fails(ErrorKind::Other)),
        Reply::RedirectFlash { kind: FlashKind::Error, .. }
    ));
}

#[test]
fn access_of_members_is_changed() {
    let assign = MemberAssignRoleForm { csrf: "t".to_string(), role_id: uuid(11) };
    match org_members::admin_org_member_assign_role_request(true, &session(), &uuid(5), &uuid(9), &assign) {
        Ok((5, r)) => assert!(r.user_id == 9 && r.role_id == 11 && matches!(r.scope, Scope::Org(5))),
        _ => panic!("refused"),
    }
    let records = row_records(OrganizationRole::Member);
    let done = org_members::admin_org_member_assign_role(
        &session(), &target(), &uuid(5), 5, 9, &assign, true, Ok(()), &records,
    );
    assert!(matches!(done.reply, Reply::Page(row) if row.row.m.rbac_roles.len() == 1));
    assert!(matches!(
        org_members::admin_org_member_unassign_role_request(true, &uuid(5), &uuid(9), &uuid(21)),
        Ok((5, 9, 21))
    ));
    let grant = MemberGrantPermForm { csrf: "t".to_string(), permission: " docs.write ".to_string(), scope: String::new() };
    assert_eq!(org_members::admin_org_member_grant_perm_text(&grant), "docs.write");
    match org_members::admin_org_member_grant_perm_request(
        true, &session(), &uuid(5), &uuid(9), Some("docs.write".to_string()), &grant, 44,
    ) {
        Ok((5, r)) => assert!(r.user_id == 9 && r.granted_at == 44 && matches!(r.scope, Scope::Org(5))),
        _ => panic!("refused"),
    }
    let revoke = MemberRevokePermForm { csrf: "t".to_string(), permission: "docs.write".to_string(), scope: String::new() };
    assert!(org_members::admin_org_member_revoke_perm_request(true, &uuid(5), &uuid(9), None, &revoke).is_err());
    assert!(matches!(
        org_members::admin_org_member_grant_perm(&session(), &target(), 5, false, Ok(()), &records),
        Reply::RedirectFlash { kind: FlashKind::Success, .. }
    ));
    assert!(matches!(
        org_members::admin_org_member_revoke_perm(&session(), &target(), 5, true, fails(ErrorKind::Other), &records),
        Reply::Toast { kind: FlashKind::Error, message } if message == "boom"
    ));
    assert!(matches!(
        org_members::admin_org_member_revoke_perm(&session(), &target(), 5, true, Ok(()), &records),
        Reply::Page(row) if row.hx_trigger.contains("Permission revoked")
    ));
}

#[test]
fn member_rows_come_with_a_message() {
    let records = row_records(OrganizationRole::Owner).unwrap();
    let row = org_members::render_member_row_with_toast(&session(), &target(), 5, &records, "Done", FlashKind::Success);
    assert_eq!(row.hx_trigger, "{\"showToast\":{\"message\":\"Done\",\"kind\":\"success\"}}");
    assert!(row.row.org_id == uuid(5) && row.row.realm_name == "acme");
    assert_eq!(row.row.available_roles.len(), 1);
    assert!(matches!(
        org_members::admin_org_member_unassign_role(&session(), &target(), 5, false, fails(ErrorKind::Other), &None),
        Reply::Toast { message, kind: FlashKind::Error } if message == "boom"
    ));
    assert!(matches!(
        org_members::admin_org_revoke_invite(&target(), 5),
        Reply::Redirect(u) if u == web::item_url(&target(), "organizations", 5)
    ));
}

#[test]
fn pickers_show_what_was_found() {
    let params = MemberPickerParams { q: " ev ".to_string(), cursor: None };
    match org_members::admin_org_member_picker(&site(), &session(), &target(), 5, &params, fails(ErrorKind::Other), &vec![role11()]) {
        Reply::Page(p) => assert!(p.users.is_empty() && p.query == "ev" && p.available_roles.len() == 1),
        _ => panic!("no page"),
    }
    let search = UserSearchParams { q: " eve ".to_string() };
    match org_members::admin_api_rbac_user_search(&search, Ok(vec![])) {
        Reply::Page(p) => assert!(p.users.is_empty() && p.query == "eve"),
        _ => panic!("no page"),
    }
}

#[test]
fn a_message_from_the_cookie_goes_first() {
    let asked = Some("asked".to_string());
    let cookie = web::Flash::success("kept".to_string());
    assert!(matches!(orgs::pick_flash(Some(cookie), &asked, &None), Some(f) if f.message == "kept"));
    assert!(matches!(
        orgs::pick_flash(None, &asked, &Some("error".to_string())),
        Some(f) if f.message == "asked" && f.kind == FlashKind::Error
    ));
    assert!(orgs::pick_flash(None, &None, &None).is_none());
    assert!(matches!(
        orgs::org_redirect_flash::<()>(5, &target(), "Gone", FlashKind::Error),
        Reply::RedirectFlash { url, message, kind: FlashKind::Error }
            if url == web::item_url(&target(), "organizations", 5) && message == "Gone"
    ));
    assert!(matches!(orgs::admin_org_delete_request(false, &uuid(5)), Err(Reply::Forbidden)));
    assert!(matches!(orgs::admin_org_delete_request(true, &uuid(5)), Ok(5)));
}
