use hearth_web::access::{Role, RoleScopeKind};
use hearth_web::identity_providers;
use hearth_web::identity_providers::{IdpConfig, IdpRow};
use hearth_web::json::Field;
use hearth_web::migrations;
use hearth_web::migrations::{MigrationHistoryRecord, MigrationRow, OrphanRecord, OrphanResolveForm};
use hearth_web::rbac;
use hearth_web::rbac::{
    ClaimMapping, ClaimSource, DebugQuery, DeclaredPermission, NamedPermission, RbacDebugQuery, ResolvedAccess,
    ScopeBundle, TokenPreviewForm,
};
use hearth_web::roles;
use hearth_web::roles::{CheckedPermission, RoleCreateForm, RoleEditForm, RoleEditTemplate};
use hearth_web::web;
use hearth_web::web::{EngineError, ErrorKind, Reply, Routes, TargetRealm};

fn session() -> web::UiSession {
    web::UiSession {
        realm_id: 7,
        user_id: 2,
        session_id: 3,
        user_email: "ada@example.com".to_string(),
        csrf: Some("t".to_string()),
    }
}

fn site() -> web::Site {
    web::Site {
        product_name: "Hearth".to_string(),
        logo_url: "/logo.svg".to_string(),
        theme_css: "css".to_string(),
        realm_theme_css: None,
    }
}

fn uuid(n: u128) -> String {
    uuid::Uuid::from_u128(n).to_string()
}

fn fails<T>(kind: ErrorKind) -> Result<T, EngineError> {
    Err(EngineError { kind, text: "boom".to_string() })
}

fn target() -> TargetRealm {
    TargetRealm { id: 7, name: "acme".to_string(), routes: Routes::Nested }
}

fn owned(v: &[&str]) -> Vec<String> {
    v.iter().map(|s| s.to_string()).collect()
}

fn role(id: u128, name: &str, permissions: &[&str]) -> Role {
    Role {
        id,
        name: name.to_string(),
        description: Some("d".to_string()),
        scope_kind: RoleScopeKind::Organization,
        permissions: owned(permissions),
    }
}

fn access() -> Result<ResolvedAccess, EngineError> {
    Ok(ResolvedAccess { roles: owned(&["viewer"]), groups: owned(&["eng"]), permissions: owned(&["a", "b"]) })
}

#[test]
fn debugging_resolves_access() {
    let q = |user: &str, org: &str| RbacDebugQuery { user_id: user.to_string(), org_id: org.to_string(), scope: String::new() };
    assert!(matches!(rbac::admin_rbac_debug_query(&q("", "")), DebugQuery::Nothing));
    assert!(matches!(rbac::admin_rbac_debug_query(&q("x", "")), DebugQuery::Invalid));
    let query = q(&uuid(9), &uuid(5));
    let asked = rbac::admin_rbac_debug_query(&query);
    assert!(matches!(&asked, DebugQuery::Resolve(r) if r.user_id == 9 && r.org_id == Some(5) && r.scope.is_none()));
    match rbac::admin_rbac_debug(&site(), &session(), &target(), &query, &asked, access()) {
        Reply::Page(p) => {
            assert_eq!(p.access.permissions, ["a", "b"]);
            assert_eq!(p.user_id_input, uuid(9));
            assert!(p.error.is_none());
        }
        _ => panic!("no page"),
    }
}

#[test]
fn tokens_are_previewed() {
    let user = rbac::admin_rbac_token_preview_user(&TokenPreviewForm { user_id: uuid(9) });
    assert_eq!(user, Some(9));
    let shown = rbac::admin_rbac_token_preview(user, 7, access());
    let v: serde_json::Value = serde_json::from_str(&shown).unwrap();
    assert_eq!(v["sub"], serde_json::Value::from(format!("user_{}", uuid(9))));
    assert_eq!(v["permissions"], serde_json::Value::from(owned(&["a", "b"])));
    assert!(shown.contains("\n  \""));
    assert_eq!(rbac::admin_rbac_token_preview_user(&TokenPreviewForm { user_id: "x".to_string() }), None);
}

#[test]
fn permissions_are_known_by_declaration_and_roles() {
    let declared = vec![DeclaredPermission { name: "docs.read".to_string(), description: Some("Read".to_string()) }];
    let all = vec![role(1, "viewer", &["docs.read", "docs.write"]), role(2, "editor", &["docs.write"])];
    let names = rbac::admin_rbac_permissions_names(&declared, &all);
    assert_eq!(names, ["docs.read", "docs.write"]);
    let seeds: Vec<NamedPermission> = names
        .iter()
        .map(|n| NamedPermission { name: n.clone(), seed: if n == "docs.write" { Some("Write".to_string()) } else { None } })
        .collect();
    match rbac::admin_rbac_permissions(&site(), &session(), &declared, &all, &seeds) {
        Reply::Page(p) => {
            assert_eq!(p.permissions.len(), 2);
            assert!(p.permissions[0].declared && !p.permissions[1].declared);
            assert_eq!(p.permissions[0].description, "Read");
            assert_eq!(p.permissions[1].roles, ["editor", "viewer"]);
            assert!(p.permissions[1].seed_bundled && !p.permissions[0].seed_bundled);
        }
        _ => panic!("no page"),
    }
}

#[test]
fn scopes_and_claims_are_listed() {
    let bundles = Some(vec![ScopeBundle { name: "docs".to_string(), description: None, permissions: owned(&["a", "b"]) }]);
    match rbac::admin_rbac_scopes(&site(), &session(), &bundles) {
        Reply::Page(p) => assert!(p.scopes[0].name == "docs" && p.scopes[0].permissions == "a, b"),
        _ => panic!("no page"),
    }
    assert_eq!(rbac::claim_source_label(&ClaimSource::Omit), "omit");
    assert!(rbac::claim_source_label(&ClaimSource::UserAttribute { attribute: "dept".to_string() }).contains("dept"));
    let mapping = ClaimMapping {
        claim: "roles".to_string(),
        source: ClaimSource::RolesFromAssignments,
        include_in_access_token: true,
        include_in_id_token: false,
        include_in_userinfo: true,
        first_party_only: false,
        required_scopes: None,
    };
    match rbac::admin_realm_claims(&site(), &session(), 7, Some("acme".to_string()), &Some(vec![mapping])) {
        Reply::Page(p) => {
            assert_eq!(p.realm_id, uuid(7));
            assert!(p.mappings[0].include_in_access_token && !p.mappings[0].include_in_id_token);
            assert!(p.mappings[0].required_scopes.is_empty());
        }
        _ => panic!("no page"),
    }
}

#[test]
fn the_alias_keeps_the_query() {
    let found = rbac::admin_permissions_resolve_alias("acme", &Some("user_id=u1&org_id=o1".to_string()));
    assert_eq!(found.status, 302);
    assert_eq!(found.location, "/ui/admin/realms/acme/rbac/debug?user_id=u1&org_id=o1");
    for raw in [None, Some(String::new())] {
        assert_eq!(rbac::admin_permissions_resolve_alias("acme", &raw).location, "/ui/admin/realms/acme/rbac/debug");
    }
}

fn lines(raw: &str) -> Vec<CheckedPermission> {
    roles::permission_lines(raw)
        .into_iter()
        .map(|line| CheckedPermission {
            verdict: if line.contains(' ') { fails(ErrorKind::Other) } else { Ok(line.clone()) },
            line,
        })
        .collect()
}

#[test]
fn permission_fields_are_read_by_lines() {
    assert_eq!(roles::permission_lines(" a \n\n b\n"), ["a", "b"]);
    assert_eq!(roles::parse_permissions_field(&lines("a\nb")), Ok(owned(&["a", "b"])));
    assert!(matches!(roles::parse_permissions_field(&lines("a\nb c")), Err(e) if e.contains("b c")));
}

#[test]
fn roles_are_created() {
    let form = RoleCreateForm {
        name: "editor".to_string(),
        description: String::new(),
        scope_kind: RoleScopeKind::Any.wire_name(),
        permissions: "a\nb".to_string(),
        csrf: "t".to_string(),
    };
    match roles::admin_role_create_submit_request(true, &site(), &session(), &target(), &form, &lines("a\nb")) {
        Ok(r) => assert!(r.name == "editor" && r.permissions == ["a", "b"] && r.scope_kind == RoleScopeKind::Any),
        Err(_) => panic!("refused"),
    }
    assert!(matches!(
        roles::admin_role_create_submit_request(true, &site(), &session(), &target(), &form, &lines("a b")),
        Err(Reply::Page(p)) if p.error.is_some() && p.form.name == "editor"
    ));
    assert!(matches!(
        roles::admin_role_create_submit(&site(), &session(), &target(), &form, Ok(4)),
        Reply::Redirect(u) if u.starts_with("/ui/admin/realms/acme/")
    ));
    assert!(matches!(
        roles::admin_role_create_submit(&site(), &session(), &target(), &form, fails(ErrorKind::DuplicateRoleName)),
        Reply::Page(p) if p.error.is_some()
    ));
}

#[test]
fn unchanged_role_forms_change_nothing() {
    let shown = RoleEditTemplate::from_role(role(4, "editor", &["a", "b"]), "acme", &session(), &site());
    let form = RoleEditForm {
        name: shown.form.name.clone(),
        description: shown.form.description.clone(),
        scope_kind: shown.form.scope_kind.clone(),
        permissions: shown.form.permissions.clone(),
        csrf: "t".to_string(),
    };
    let checked = lines(&shown.form.permissions);
    match roles::admin_role_edit_submit_request(
        true, &site(), &session(), &target(), &uuid(4), &form, &checked, Some(role(4, "editor", &["a", "b"])),
    ) {
        Ok(r) => {
            assert_eq!(r.role_id, 4);
            assert_eq!(r.permissions, ["a", "b"]);
            assert!(r.scope_kind == RoleScopeKind::Organization);
        }
        Err(_) => panic!("refused"),
    }
    assert!(matches!(
        roles::admin_role_edit_submit(&site(), &session(), &target(), 4, &form, Ok(()), None),
        Reply::Redirect(_)
    ));
    assert!(matches!(roles::admin_role_delete_request(true, "x"), Err(Reply::NotFound(_))));
    assert!(matches!(roles::admin_role_delete(&target(), Ok(())), Reply::Redirect(_)));
    match roles::admin_rbac_roles(&site(), &session(), &target(), &vec![role(1, "b", &["x"]), role(2, "a", &[])]) {
        Reply::Page(p) => assert_eq!(p.roles.len(), 2),
        _ => panic!("no page"),
    }
}

#[test]
fn migrations_are_listed() {
    let record = |move_semantics: bool| MigrationHistoryRecord {
        source_slug: "a".to_string(),
        destination_slug: "b".to_string(),
        move_semantics,
        users_migrated: 3,
        users_skipped: 1,
        completed_at: "now".to_string(),
        badge_class: "ok".to_string(),
        status_label: "Done".to_string(),
    };
    assert_eq!(MigrationRow::from_record(&record(true)).kind, "move");
    assert_eq!(MigrationRow::from_record(&record(false)).kind, "copy");
    let orphans = vec![OrphanRecord { realm_slug: "old".to_string(), detected_at: "d".to_string(), user_count: 2, org_count: 0 }];
    match migrations::admin_migrations_list(&site(), &session(), &vec![record(true)], &orphans) {
        Reply::Page(p) => {
            assert_eq!((p.migrations.len(), p.orphans.len()), (1, 1));
            assert!(p.orphans[0].yaml_snippet.contains("old"));
        }
        _ => panic!("no page"),
    }
    let form = |csrf: &str| OrphanResolveForm { csrf: csrf.to_string(), slug: "old".to_string(), destination: Some("new".to_string()) };
    assert!(matches!(migrations::admin_migrations_orphan_resolve(false, form("x")), Reply::Forbidden));
    assert!(matches!(
        migrations::admin_migrations_orphan_resolve(true, form("t")),
        Reply::Page(p) if p.yaml_migrate.contains("new") && p.yaml_discard.contains("old")
    ));
}

#[test]
fn identity_providers_are_listed() {
    let config = || IdpConfig {
        id: "id1".to_string(),
        name: "google".to_string(),
        display_name: "Google".to_string(),
        kind: "oidc".to_string(),
        issuer: "https://accounts.google.com".to_string(),
    };
    let row = IdpRow::from(config());
    assert_eq!((row.id.as_str(), row.display_name.as_str()), ("id1", "Google"));
    match identity_providers::admin_idp_list(&site(), &session(), &target(), Ok(vec![config()])) {
        Reply::Page(p) => assert!(p.providers.len() == 1 && p.realm_name == "acme"),
        _ => panic!("no page"),
    }
}

#[test]
fn previews_tell_what_failed() {
    let claims = rbac::token_preview_claims(Some(9), 7, access());
    let keys: Vec<&str> = claims.iter().map(|c| c.0.as_str()).collect();
    assert_eq!(keys, ["sub", "oid", "realm", "roles", "groups", "permissions", "_note"]);
    let none = rbac::token_preview_claims(None, 7, access());
    assert!(none.len() == 1 && matches!(&none[0].1, Field::Text(t) if t == "Invalid user UUID"));
    let failed = rbac::token_preview_claims(Some(9), 7, fails(ErrorKind::Other));
    assert!(matches!(&failed[0].1, Field::Text(t) if t == "Resolution failed: boom"));
}

#[test]
fn role_pages_start_from_the_role() {
    assert!(matches!(roles::role_request(&uuid(4)), Ok(4)));
    assert!(matches!(roles::role_request("x"), Err(Reply::NotFound(m)) if m == "Role not found"));
    let found = || Ok(Some(role(4, "viewer", &["b", "a"])));
    assert!(matches!(
        roles::admin_role_detail(&site(), &session(), &target(), found()),
        Reply::Page(p) if p.role.id == 4 && p.scope == RoleScopeKind::Organization.wire_name()
    ));
    assert!(matches!(roles::admin_role_detail(&site(), &session(), &target(), Ok(None)), Reply::NotFound(_)));
    assert!(matches!(
        roles::admin_role_create_form(&site(), &session(), &target()),
        Reply::Page(p) if p.error.is_none() && p.form.name.is_empty()
    ));
    assert!(matches!(
        roles::admin_role_edit_form(&site(), &session(), &target(), found()),
        Reply::Page(p) if p.form.name == "viewer"
    ));
    assert!(matches!(
        roles::admin_role_edit_form(&site(), &session(), &target(), fails(ErrorKind::Other)),
        Reply::ServerError
    ));
}
