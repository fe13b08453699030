use hearth_web::access;
use hearth_web::access::{Assignment, Grant, HeldRole, OrgSummary, Role, RoleScopeKind, Scope};
use hearth_web::members;
use hearth_web::members::{Membership, OrganizationRole, Person};
use hearth_web::web;

fn owned(v: &[&str]) -> Vec<String> {
    v.iter().map(|s| s.to_string()).collect()
}

fn role(id: u128, name: &str, kind: RoleScopeKind, permissions: &[&str]) -> Role {
    Role {
        id,
        name: name.to_string(),
        description: None,
        scope_kind: kind,
        permissions: owned(permissions),
    }
}

fn held(id: u128, scope: Scope, role: Option<Role>, org: Option<&str>) -> HeldRole {
    HeldRole {
        assignment: Assignment { id, role_id: role.as_ref().map_or(99, |r| r.id), scope },
        role,
        org_name: org.map(String::from),
    }
}

fn uuid(n: u128) -> String {
    uuid::Uuid::from_u128(n).to_string()
}

fn session() -> web::UiSession {
    web::UiSession {
        realm_id: 1,
        user_id: 2,
        session_id: 3,
        user_email: "ada@example.com".to_string(),
        csrf: Some("t".to_string()),
    }
}

#[test]
fn scope_kinds_come_back() {
    for kind in [RoleScopeKind::Realm, RoleScopeKind::Organization, RoleScopeKind::Any] {
        assert!(access::parse_scope_kind(&kind.wire_name()) == kind);
    }
    assert!(access::parse_scope_kind("nonsense") == RoleScopeKind::Realm);
}

#[test]
fn scopes_are_read_and_written() {
    assert!(matches!(access::parse_rbac_scope("realm"), Ok(Scope::Realm)));
    let raw = access::send_scope(Scope::Org(7));
    assert_eq!(raw, format!("org:{}", uuid(7)));
    assert!(matches!(access::parse_rbac_scope(&raw), Ok(Scope::Org(7))));
    assert_eq!(access::send_scope(Scope::Realm), "realm");
    assert!(access::parse_rbac_scope("org:nope").is_err());
    assert!(access::parse_rbac_scope("galaxy").is_err());
    assert_eq!(access::show_scope(Scope::Realm, &None), "Realm-wide");
}

#[test]
fn assignments_are_listed_by_role() {
    let rows = access::build_role_assignment_rows(&vec![
        held(1, Scope::Realm, Some(role(11, "viewer", RoleScopeKind::Realm, &["b", "a"])), None),
        held(2, Scope::Org(5), Some(role(12, "editor", RoleScopeKind::Any, &["c"])), Some("Acme")),
    ]);
    assert_eq!(rows.len(), 2);
    assert_eq!(rows[0].role_name, "editor");
    assert_eq!(rows[0].assignment_id, uuid(2));
    assert_eq!(rows[0].scope_raw, format!("org:{}", uuid(5)));
    assert!(rows[0].scope_label.contains("Acme"));
    assert_eq!(rows[1].role_name, "viewer");
    assert_eq!(rows[1].role_id, uuid(11));
    let groups = access::build_role_inherited_groups(&rows);
    assert_eq!(groups.len(), 2);
    assert_eq!(groups[0].role_name, "editor");
}

#[test]
fn permissions_of_roles_are_collected_once() {
    let roles = vec![
        role(1, "r", RoleScopeKind::Realm, &["z", "a"]),
        role(2, "o", RoleScopeKind::Organization, &["o", "a"]),
        role(3, "x", RoleScopeKind::Any, &["a", "m"]),
    ];
    let realm = access::collect_realm_permissions(&roles);
    let org = access::collect_org_permissions(&roles);
    assert_eq!(realm, owned(&["a", "m", "o", "z"]));
    assert_eq!(org, owned(&["a", "m", "o"]));
}

#[test]
fn offered_roles_fit_the_place() {
    let roles = vec![
        role(1, "r", RoleScopeKind::Realm, &[]),
        role(2, "o", RoleScopeKind::Organization, &[]),
        role(3, "x", RoleScopeKind::Any, &[]),
    ];
    let names = |v: &Vec<access::AvailableRole>| v.iter().map(|r| r.name.clone()).collect::<Vec<_>>();
    assert_eq!(names(&access::build_org_available_roles(&roles)), ["o", "x"]);
    assert!(names(&access::build_realm_available_roles(&roles)).contains(&"r".to_string()));
    let orgs = access::build_available_orgs(&vec![OrgSummary { id: 9, name: "Acme".to_string() }]);
    assert_eq!((orgs[0].id.as_str(), orgs[0].name.as_str()), (uuid(9).as_str(), "Acme"));
}

#[test]
fn grantable_is_what_no_role_gives() {
    let roles = vec![role(1, "r", RoleScopeKind::Realm, &["a", "b", "c", "d"])];
    let direct = access::build_permission_grant_rows(&vec![Grant {
        permission: "b".to_string(),
        scope: Scope::Realm,
        org_name: None,
    }]);
    assert_eq!(direct[0].permission, "b");
    assert_eq!(direct[0].scope_raw, "realm");
    let effective = owned(&["a", "b", "c"]);
    let none = access::grantable_permissions(&roles, &vec![], &effective, &direct);
    assert_eq!(none, owned(&["b", "d"]));
    let holds = vec![held(1, Scope::Realm, Some(role(2, "h", RoleScopeKind::Realm, &["b"])), None)];
    assert_eq!(access::grantable_permissions(&roles, &holds, &effective, &direct), owned(&["d"]));
}

#[test]
fn org_roles_come_back() {
    for r in [OrganizationRole::Owner, OrganizationRole::Admin, OrganizationRole::Member] {
        assert!(members::parse_org_role(&r.label()) == r);
    }
    assert!(members::parse_org_role("owner") == OrganizationRole::Member);
    assert_eq!(members::org_role_to_relation(OrganizationRole::Owner), "owner");
    assert_eq!(members::org_role_to_relation(OrganizationRole::Admin), "admin");
    assert_eq!(members::org_role_to_relation(OrganizationRole::Member), "member");
}

#[test]
fn owners_are_counted() {
    let m = |user_id: u128, role: OrganizationRole| Membership { org_id: 1, user_id, role };
    let all = vec![m(1, OrganizationRole::Owner), m(2, OrganizationRole::Admin), m(3, OrganizationRole::Owner)];
    assert_eq!(members::count_org_owners(&all), 2);
    let one = vec![m(1, OrganizationRole::Owner), m(2, OrganizationRole::Admin)];
    assert_eq!(members::count_org_owners(&one), 1);
    assert_eq!(members::count_org_owners(&vec![]), 0);
}

#[test]
fn members_are_named() {
    let m = || Membership { org_id: 1, user_id: 7, role: OrganizationRole::Member };
    let p = |name: &str| Some(Person { display_name: name.to_string(), email: "a@b".to_string() });
    assert_eq!(members::member_view(m(), &p("Ada")).user_name, "Ada");
    assert_eq!(members::member_view(m(), &p("")).user_name, "a@b");
    assert_eq!(members::member_view(m(), &None).user_name, uuid(7));
}

#[test]
fn access_of_a_member() {
    let view = members::member_view(
        Membership { org_id: 5, user_id: 7, role: OrganizationRole::Member },
        &None,
    );
    let roles = vec![
        role(11, "editor", RoleScopeKind::Organization, &["docs.read", "docs.write", "docs.admin"]),
        role(12, "realmish", RoleScopeKind::Realm, &["users.read"]),
    ];
    let r = members::build_member_with_access(
        5,
        view,
        true,
        &vec![
            held(1, Scope::Org(5), Some(role(11, "reader", RoleScopeKind::Organization, &["docs.read"])), None),
            held(2, Scope::Org(6), Some(role(11, "reader", RoleScopeKind::Organization, &["docs.read"])), None),
            held(3, Scope::Realm, Some(role(12, "realmish", RoleScopeKind::Realm, &[])), None),
        ],
        &vec![
            Grant { permission: "docs.write".to_string(), scope: Scope::Org(5), org_name: None },
            Grant { permission: "docs.admin".to_string(), scope: Scope::Org(6), org_name: None },
        ],
        &roles,
    );
    assert!(r.is_last_owner);
    assert_eq!(r.rbac_roles.len(), 1);
    assert_eq!(r.rbac_roles[0].assignment_id, uuid(1));
    assert_eq!(r.extra_perms.len(), 1);
    assert_eq!(r.extra_perms[0].permission, "docs.write");
    assert_eq!(r.available_permissions, owned(&["docs.admin"]));
}

#[test]
fn role_changes_are_mirrored() {
    let s = session();
    let added = members::mirror_org_member_added(&s, 1, 5, 7, OrganizationRole::Admin);
    assert!(added.action == web::AuditAction::RoleAssigned);
    let removed = members::mirror_org_member_removed(&s, 1, 5, 7, OrganizationRole::Admin);
    assert!(removed.action == web::AuditAction::RoleRevoked);
    let changed = members::mirror_org_role_changed(&s, 1, 5, 7, OrganizationRole::Admin, OrganizationRole::Owner);
    assert_eq!(changed.len(), 2);
    assert!(changed[0].action == web::AuditAction::RoleRevoked);
    assert!(changed[1].action == web::AuditAction::RoleAssigned);
    let same = members::mirror_org_role_changed(&s, 1, 5, 7, OrganizationRole::Admin, OrganizationRole::Admin);
    assert_eq!(same.len(), 0);
}

#[test]
fn scope_texts_have_two_forms() {
    assert!(matches!(access::split_scope("realm"), access::ScopeText::Realm));
    assert!(matches!(access::split_scope("org:x"), access::ScopeText::Org(s) if s == "x"));
    assert!(matches!(access::split_scope("org"), access::ScopeText::Unknown));
    assert_eq!(access::or_empty(&None), "");
}

#[test]
fn people_without_a_name_go_by_their_address() {
    let person = |name: &str| Person { display_name: name.to_string(), email: "e@x".to_string() };
    assert_eq!(members::person_name(&person("Eve")), "Eve");
    assert_eq!(members::person_name(&person("")), "e@x");
}
