use hearth_web::access::Scope;
use hearth_web::groups;
use hearth_web::groups::{
    AddGroupMemberForm, CreateGroupForm, Group, GroupAssignRoleForm, GroupAssignment, GroupDetailParams,
    GroupListParams, GroupMember, GroupNames, GroupRecords, PickerQuery, ResolvedMember, UpdateGroupForm,
};
use hearth_web::members::Person;
use hearth_web::org_members::MemberPickerParams;
use hearth_web::sessions::Page;
use hearth_web::users::{ListQuery, User, UserStatus};
use hearth_web::web;
use hearth_web::web::{AuditAction, EngineError, ErrorKind, FlashKind, Reply, Routes, TargetRealm};

fn session() -> web::UiSession {
    web::UiSession {
        realm_id: 7,
        user_id: 2,
        session_id: 3,
        user_email: "ada@example.com".to_string(),
        csrf: Some("t".to_string()),
    }
}

fn site() -> web::Site {
    web::Site {
        product_name: "Hearth".to_string(),
        logo_url: "/logo.svg".to_string(),
        theme_css: "css".to_string(),
        realm_theme_css: None,
    }
}

fn uuid(n: u128) -> String {
    uuid::Uuid::from_u128(n).to_string()
}

fn fails<T>(kind: ErrorKind) -> Result<T, EngineError> {
    Err(EngineError { kind, text: "boom".to_string() })
}

fn target() -> TargetRealm {
    TargetRealm { id: 7, name: "acme".to_string(), routes: Routes::Nested }
}

fn group(id: u128, name: &str, slug: &str) -> Group {
    Group { id, name: name.to_string(), slug: slug.to_string(), description: None }
}

fn user(id: u128, name: &str) -> User {
    User {
        id,
        email: format!("{name}@example.com"),
        display_name: name.to_string(),
        first_name: String::new(),
        last_name: String::new(),
        status: UserStatus::Active,
        created_at: 0,
        updated_at: 0,
        attributes: vec![],
    }
}

fn person(name: &str) -> Option<Person> {
    Some(Person { display_name: name.to_string(), email: "e@x".to_string() })
}

#[test]
fn groups_are_listed() {
    let all = || vec![group(1, "Engineering", "eng"), group(2, "Sales", "sales")];
    let params = GroupListParams { cursor: None, q: Some("ENG".to_string()) };
    match groups::admin_groups_list(&site(), &session(), &target(), &params, Ok(Page { items: all(), next_cursor: None })) {
        Reply::Page(p) => assert!(p.groups.len() == 1 && p.groups[0].id == 1),
        _ => panic!("no page"),
    }
    assert!(matches!(
        groups::admin_groups_list(&site(), &session(), &target(), &params, fails(ErrorKind::Other)),
        Reply::ServerError
    ));
}

#[test]
fn groups_are_created() {
    let form = CreateGroupForm { name: "Eng".to_string(), slug: "eng".to_string(), description: String::new(), csrf: "t".to_string() };
    assert!(matches!(groups::admin_group_create_submit_request(true, &form), Ok(r) if r.slug == "eng" && r.description.is_none()));
    let done = groups::admin_group_create_submit(&site(), &session(), &target(), &form, Ok(4));
    assert!(done.events[0].action == AuditAction::GroupCreated);
    assert!(matches!(done.reply, Reply::Redirect(u) if u.starts_with(&format!("/ui/admin/realms/acme/groups/{}", uuid(4)))));
    let dup = groups::admin_group_create_submit(&site(), &session(), &target(), &form, fails(ErrorKind::DuplicateGroupSlug));
    assert!(dup.events.is_empty() && matches!(dup.reply, Reply::Page(p) if p.error.is_some() && p.form_slug == "eng"));
}

#[test]
fn members_are_shown_by_name() {
    let views = groups::build_group_member_views(&vec![
        ResolvedMember::User { id: 1, person: person("Zoe") },
        ResolvedMember::Group { id: 2, group: Some(GroupNames { name: "Ops".to_string(), slug: "ops".to_string() }) },
        ResolvedMember::User { id: 3, person: None },
    ]);
    assert_eq!(views.len(), 3);
    assert!(views.iter().any(|v| v.display_name == "Zoe" && v.member_kind == "user" && v.member_id_uuid == uuid(1)));
    assert!(views.iter().any(|v| v.display_name == "Ops" && v.member_kind == "group"));
    let ids = groups::group_member_user_ids(&vec![GroupMember::User(4), GroupMember::Group(5), GroupMember::User(6)]);
    assert_eq!(ids, vec![4, 6]);
}

fn records() -> GroupRecords {
    GroupRecords {
        members: vec![ResolvedMember::User { id: 1, person: person("Zoe") }],
        known: vec![GroupMember::User(1)],
        assignments: vec![GroupAssignment { id: 21, role_name: Some("viewer".to_string()), scope: Scope::Realm, org_slug: None }],
        users: Ok(Page { items: vec![user(1, "zoe"), user(2, "amy")], next_cursor: None }),
        roles: vec![],
        orgs: vec![],
    }
}

#[test]
fn a_group_is_shown() {
    let params = GroupDetailParams { tab: None };
    match groups::admin_group_detail(&site(), &session(), &target(), &params, Ok(Some(group(4, "Eng", "eng"))), records()) {
        Reply::Page(p) => {
            assert_eq!(p.group_id, uuid(4));
            assert_eq!((p.member_count, p.role_count), (1, 1));
            assert_eq!(p.role_assignments[0].role_label, "viewer");
            let offered: Vec<u128> = p.users.iter().map(|u| u.id).collect();
            assert_eq!(offered, [2]);
        }
        _ => panic!("no page"),
    }
    assert!(matches!(
        groups::admin_group_detail(&site(), &session(), &target(), &params, Ok(None), records()),
        Reply::NotFound(_)
    ));
    assert!(matches!(groups::group_request("x"), Err(Reply::NotFound(_))));
}

#[test]
fn the_picker_offers_who_is_not_in() {
    let params = |q: &str| MemberPickerParams { q: q.to_string(), cursor: None };
    assert!(matches!(groups::admin_group_member_picker_query(&params("amy")), PickerQuery::All { limit: 200 }));
    assert!(matches!(groups::admin_group_member_picker_query(&params("")), PickerQuery::Browse { cursor: None, limit: 20 }));
    let found = Ok(Page { items: vec![user(1, "zoe"), user(2, "amy"), user(3, "bob")], next_cursor: None });
    match groups::admin_group_member_picker(&session(), &target(), 4, &params("AMY"), &vec![GroupMember::User(1)], found) {
        Reply::Page(p) => {
            assert_eq!(p.users.iter().map(|u| u.id).collect::<Vec<_>>(), [2]);
            assert_eq!(p.group_id, uuid(4));
        }
        _ => panic!("no page"),
    }
}

#[test]
fn groups_are_edited_and_deleted() {
    let form = UpdateGroupForm { name: "New".to_string(), slug: "new".to_string(), description: String::new(), csrf: "t".to_string() };
    assert!(matches!(groups::admin_group_edit_submit_request(true, &uuid(4), &form), Ok(r) if r.group_id == 4 && r.name == "New"));
    let done = groups::admin_group_edit_submit(&site(), &session(), &target(), 4, &form, Ok(()), Some(group(4, "Eng", "eng")));
    assert!(done.events[0].action == AuditAction::GroupUpdated);
    let done = groups::admin_group_delete(&session(), &target(), 4, Ok(()));
    assert!(done.events[0].action == AuditAction::GroupDeleted);
    assert!(matches!(done.reply, Reply::Redirect(u) if u == "/ui/admin/realms/acme/groups"));
    assert!(matches!(groups::admin_group_delete_request(true, "x"), Err(Reply::NotFound(_))));
}

#[test]
fn members_come_and_go() {
    let form = |kind: &str| AddGroupMemberForm { member_kind: kind.to_string(), member_id: uuid(9), csrf: "t".to_string() };
    assert!(matches!(
        groups::admin_group_member_add_request(true, &target(), &uuid(4), &form("user")),
        Ok((4, GroupMember::User(9)))
    ));
    assert!(matches!(
        groups::admin_group_member_add_request(true, &target(), &uuid(4), &form("group")),
        Ok((4, GroupMember::Group(9)))
    ));
    let done = groups::admin_group_member_add(&session(), &target(), 4, &form("user"), Ok(()));
    assert!(done.events[0].action == AuditAction::GroupMemberAdded);
    let failed = groups::admin_group_member_add(&session(), &target(), 4, &form("user"), fails(ErrorKind::Other));
    assert!(failed.events.is_empty() && matches!(failed.reply, Reply::RedirectFlash { kind: FlashKind::Error, .. }));
    assert!(matches!(
        groups::admin_group_member_remove_request(true, &uuid(4), "user", &uuid(9)),
        Ok((4, GroupMember::User(9)))
    ));
    let member = ResolvedMember::User { id: 9, person: person("Zoe") };
    let gone = groups::admin_group_member_remove(&session(), &target(), 4, "user", &uuid(9), true, Ok(()), &member);
    assert!(gone.events[0].action == AuditAction::GroupMemberRemoved);
    let kept = groups::admin_group_member_remove(&session(), &target(), 4, "user", &uuid(9), true, fails(ErrorKind::Other), &member);
    assert!(matches!(kept.reply, Reply::Page(row) if row.row.m.display_name == "Zoe"));
}

#[test]
fn roles_of_groups() {
    let form = |scope: &str| GroupAssignRoleForm { csrf: "t".to_string(), role_id: uuid(11), scope: scope.to_string() };
    assert!(matches!(
        groups::admin_group_role_assign_request(true, &session(), &target(), &uuid(4), &form("realm")),
        Ok(r) if r.group_id == 4 && r.role_id == 11 && r.assigned_by == 2 && matches!(r.scope, Scope::Realm)
    ));
    assert!(groups::admin_group_role_assign_request(true, &session(), &target(), &uuid(4), &form("moon")).is_err());
    let done = groups::admin_group_role_assign(&session(), &target(), 4, &form("realm"), Ok(()));
    assert!(done.events[0].action == AuditAction::RoleAssigned);
    assert!(matches!(groups::admin_group_role_unassign_request(true, &uuid(4), &uuid(21)), Ok((4, 21))));
    let done = groups::admin_group_role_unassign(&session(), &target(), 4, &uuid(21), Ok(()));
    assert!(done.events[0].action == AuditAction::RoleRevoked);
    let failed = groups::admin_group_role_unassign(&session(), &target(), 4, &uuid(21), fails(ErrorKind::Other));
    assert!(failed.events.is_empty());
}

#[test]
fn group_lists_search_or_browse() {
    let params = |q: Option<&str>| GroupListParams { cursor: Some("c".to_string()), q: q.map(|s| s.to_string()) };
    assert!(matches!(groups::admin_groups_list_query(&params(Some("eng"))), ListQuery::Search { text, limit: 200 } if text == "eng"));
    assert!(matches!(groups::admin_groups_list_query(&params(None)), ListQuery::Browse { cursor: Some(c), limit: 20 } if c == "c"));
}

#[test]
fn group_forms_start_from_the_group() {
    match groups::admin_group_create_form(&site(), &session(), &target()) {
        Reply::Page(p) => assert!(p.error.is_none() && p.form_name.is_empty() && p.realm_name == "acme"),
        _ => panic!("no page"),
    }
    match groups::admin_group_edit_form(&site(), &session(), &target(), Ok(Some(group(4, "Eng", "eng")))) {
        Reply::Page(p) => assert!(p.form_name == "Eng" && p.form_slug == "eng" && p.form_description.is_empty()),
        _ => panic!("no page"),
    }
    assert!(matches!(groups::admin_group_edit_form(&site(), &session(), &target(), Ok(None)), Reply::NotFound(_)));
    assert!(matches!(
        groups::admin_group_edit_form(&site(), &session(), &target(), fails(ErrorKind::Other)),
        Reply::ServerError
    ));
}

#[test]
fn members_without_a_record_keep_their_identifier() {
    let known = groups::group_member_view(&ResolvedMember::User { id: 9, person: person("Eve") });
    assert!(known.member_kind == "user" && known.display_name == "Eve" && known.subtitle == "e@x");
    let gone = groups::group_member_view(&ResolvedMember::Group { id: 3, group: None });
    assert_eq!(gone.display_name, format!("group_{}", uuid(3)));
    assert!(gone.subtitle == "unknown group" && gone.member_id_uuid == uuid(3));
    let row = groups::render_group_member_row_with_toast(
        &session(),
        &target(),
        4,
        &ResolvedMember::User { id: 9, person: None },
        "say \"hi\"",
        FlashKind::Error,
    );
    assert_eq!(row.row.m.display_name, format!("user_{}", uuid(9)));
    assert_eq!(row.row.group_id, uuid(4));
    assert_eq!(row.hx_trigger, "{\"showToast\":{\"message\":\"say \\\"hi\\\"\",\"kind\":\"error\"}}");
}

#[test]
fn the_edit_form_keeps_the_group() {
    for description in [None, Some("Builds things".to_string())] {
        let shown = Group { id: 4, name: "Eng".to_string(), slug: "eng".to_string(), description: description.clone() };
        let form = match groups::admin_group_edit_form(&site(), &session(), &target(), Ok(Some(shown))) {
            Reply::Page(p) => UpdateGroupForm {
                name: p.form_name,
                slug: p.form_slug,
                description: p.form_description,
                csrf: "t".to_string(),
            },
            _ => panic!("no page"),
        };
        match groups::admin_group_edit_submit_request(true, &uuid(4), &form) {
            Ok(q) => assert!(q.group_id == 4 && q.name == "Eng" && q.slug == "eng" && q.description == description),
            Err(_) => panic!("refused"),
        }
    }
}
