//! Roles and permissions of a user: the tabs that show them and the actions
//! that change them.

use crate::access;
use crate::codec;
use crate::json;
use crate::members;
use crate::order;
use crate::text;
use crate::users;
use crate::web;
use vstd::prelude::*;
use vstd::string::*;

verus! {

// ---------------------------------------------------------------------------
// The tabs
// ---------------------------------------------------------------------------

/// What the engines tell for the roles tab; empty where they could not tell.
pub struct RoleRecords {
    pub held: Vec<access::HeldRole>,
    pub roles: Vec<access::Role>,
    pub orgs: Vec<access::OrgSummary>,
}

/// The roles tab.
pub struct UserRolesTabTemplate {
    pub user_id: String,
    pub role_assignments: Vec<access::UserRoleAssignmentRow>,
    pub available_roles: Vec<access::AvailableRole>,
    pub available_orgs: Vec<access::AvailableOrg>,
    pub role_perms_json: String,
    pub csrf: Option<String>,
}

impl UserRolesTabTemplate {
    /// Whether the tab shows a user's roles.
    pub open spec fn shows(
        self,
        session: web::UiSession,
        user_id: u128,
        records: RoleRecords,
    ) -> bool {
        &&& self.user_id@ == codec::hyphenated(user_id)
        &&& text::views(self.role_assignments@) == access::assignment_rows(records.held@)
        &&& text::views(self.available_roles@) == access::role_choices(records.roles@)
        &&& text::views(self.available_orgs@) == access::org_choices(records.orgs@)
        &&& self.role_perms_json@ == json::or_empty_object(
            json::lists_json(users::role_entries(access::role_choices(records.roles@))),
        )
        &&& text::opt_text(self.csrf) == text::opt_text(session.csrf)
    }
}

/// Builds the roles tab.
pub fn render_roles_tab(session: &web::UiSession, user_id: u128, records: &RoleRecords) -> (r:
    UserRolesTabTemplate)
    ensures
        r.shows(*session, user_id, *records),
{
    let available_roles = access::build_realm_available_roles(&records.roles);
    let role_perms_json = users::role_permissions_json(&available_roles);
    UserRolesTabTemplate {
        user_id: codec::uuid_text(user_id),
        role_assignments: access::build_role_assignment_rows(&records.held),
        available_roles,
        available_orgs: access::build_available_orgs(&records.orgs),
        role_perms_json,
        csrf: text::clone_opt(&session.csrf),
    }
}

/// What the engines tell for the permissions tab; empty where they could not
/// tell.
pub struct PermissionRecords {
    pub held: Vec<access::HeldRole>,
    pub grants: Vec<access::Grant>,
    pub effective: Vec<String>,
    pub roles: Vec<access::Role>,
    pub orgs: Vec<access::OrgSummary>,
}

/// The permissions tab.
pub struct UserPermissionsTabTemplate {
    pub user_id: String,
    pub extra_permissions: Vec<access::UserPermissionGrantRow>,
    pub role_inherited_groups: Vec<access::RoleInheritedGroup>,
    pub available_permissions: Vec<String>,
    pub available_orgs: Vec<access::AvailableOrg>,
    pub csrf: Option<String>,
}

impl UserPermissionsTabTemplate {
    /// Whether the tab shows a user's permissions.
    pub open spec fn shows(
        self,
        session: web::UiSession,
        user_id: u128,
        records: PermissionRecords,
    ) -> bool {
        &&& self.user_id@ == codec::hyphenated(user_id)
        &&& text::views(self.extra_permissions@) == access::grant_rows(records.grants@)
        &&& text::views(self.role_inherited_groups@) == access::inherited_groups(
            access::assignment_rows(records.held@),
        )
        &&& text::texts(self.available_permissions@) == access::grantable(
            order::sorted_set(access::all_permissions(records.roles@)),
            records.held@,
            text::texts(records.effective@),
            access::grant_rows(records.grants@),
        )
        &&& text::views(self.available_orgs@) == access::org_choices(records.orgs@)
        &&& text::opt_text(self.csrf) == text::opt_text(session.csrf)
    }
}

/// Builds the permissions tab.
pub fn render_permissions_tab(
    session: &web::UiSession,
    user_id: u128,
    records: &PermissionRecords,
) -> (r: UserPermissionsTabTemplate)
    ensures
        r.shows(*session, user_id, *records),
{
    let extra_permissions = access::build_permission_grant_rows(&records.grants);
    let assignments = access::build_role_assignment_rows(&records.held);
    let role_inherited_groups = access::build_role_inherited_groups(&assignments);
    let available_permissions = access::grantable_permissions(
        &records.roles,
        &records.held,
        &records.effective,
        &extra_permissions,
    );
    UserPermissionsTabTemplate {
        user_id: codec::uuid_text(user_id),
        extra_permissions,
        role_inherited_groups,
        available_permissions,
        available_orgs: access::build_available_orgs(&records.orgs),
        csrf: text::clone_opt(&session.csrf),
    }
}

// ---------------------------------------------------------------------------
// Roles
// ---------------------------------------------------------------------------

/// The form that assigns a role.
pub struct AssignRoleForm {
    pub csrf: String,
    pub role_id: String,
    pub scope: String,
}

/// The form that takes a role back.
pub struct UnassignRoleForm {
    pub csrf: String,
}

/// Whether a request about a user is answered with an error: a toast for
/// HTMX, else a redirect to the user's page.
pub open spec fn refuses<P>(
    r: web::Reply<P>,
    is_htmx: bool,
    user_id: Seq<char>,
    message: Seq<char>,
    flash: Seq<char>,
) -> bool {
    if is_htmx {
        r.toasts(message, web::FlashKind::Error)
    } else {
        r.redirects(users::user_address(user_id, flash))
    }
}

fn refuse<P>(is_htmx: bool, user_id: &str, message: &str, flash: &str) -> (r: web::Reply<P>)
    ensures
        refuses(r, is_htmx, user_id@, message@, flash@),
{
    if is_htmx {
        web::Reply::toast(message, web::FlashKind::Error)
    } else {
        web::Reply::Redirect(users::user_url(user_id, flash))
    }
}

/// What the engine is asked to assign.
#[derive(Clone, Copy, PartialEq, Eq, Structural)]
pub struct AssignRequest {
    pub user_id: u128,
    pub role_id: u128,
    pub scope: access::Scope,
    pub assigned_by: u128,
}

/// Reads which role to assign to which user, where.
pub fn admin_user_assign_role_request(
    csrf_ok: bool,
    session: &web::UiSession,
    user_id: &str,
    form: &AssignRoleForm,
    is_htmx: bool,
) -> (r: Result<AssignRequest, web::Reply<UserRolesTabTemplate>>)
    ensures
        !csrf_ok ==> r is Err && r->Err_0 is Forbidden,
        csrf_ok ==> match codec::uuid_of(user_id@) {
            None => r is Err && r->Err_0.not_found("User not found"@),
            Some(uid) => match codec::uuid_of(form.role_id@) {
                None => r is Err && refuses(
                    r->Err_0,
                    is_htmx,
                    user_id@,
                    "Invalid role ID"@,
                    "invalid_role"@,
                ),
                Some(role_id) => match access::scope_meant(form.scope@, access::uuid_reading()) {
                    Err(_) => r is Err && refuses(
                        r->Err_0,
                        is_htmx,
                        user_id@,
                        "Invalid scope"@,
                        "invalid_scope"@,
                    ),
                    Ok(scope) => r is Ok && r->Ok_0 == (AssignRequest {
                        user_id: uid,
                        role_id,
                        scope,
                        assigned_by: session.user_id,
                    }),
                },
            },
        },
{
    let uid: u128 = match web::require_one(csrf_ok, user_id, "User not found") {
        Ok(id) => id,
        Err(reply) => return Err(reply),
    };
    let role_id: u128 = match codec::parse_uuid(form.role_id.as_str()) {
        Some(id) => id,
        None => return Err(refuse(is_htmx, user_id, "Invalid role ID", "invalid_role")),
    };
    match access::parse_rbac_scope(form.scope.as_str()) {
        Ok(scope) => Ok(
            AssignRequest { user_id: uid, role_id, scope, assigned_by: session.user_id },
        ),
        Err(_) => Err(refuse(is_htmx, user_id, "Invalid scope", "invalid_scope")),
    }
}

/// Answers after the engine tried to assign a role. `user_id` is the user as
/// the request wrote it; `records` are read where HTMX asks for the tab.
pub fn admin_user_assign_role(
    session: &web::UiSession,
    realm_id: u128,
    user_id: &str,
    uid: u128,
    form: &AssignRoleForm,
    is_htmx: bool,
    assigned: Result<(), web::EngineError>,
    records: &RoleRecords,
) -> (r: web::Outcome<UserRolesTabTemplate>)
    ensures
        match assigned {
            Ok(_) => {
                &&& r.log() == seq![
                    members::role_event(
                        *session,
                        realm_id,
                        uid,
                        true,
                        "user"@,
                        codec::hyphenated(uid),
                        form.role_id@,
                    ),
                ]
                &&& is_htmx ==> r.reply is Page && r.reply->Page_0.shows(*session, uid, *records)
                &&& !is_htmx ==> r.reply.redirects(
                    users::user_address(user_id@, "role_assigned"@),
                )
            },
            Err(e) => r.is_silent() && refuses(
                r.reply,
                is_htmx,
                user_id@,
                e.text@,
                "assign_role_failed"@,
            ),
        },
{
    match assigned {
        Ok(_) => {
            let event = members::audit_role_event(
                session,
                realm_id,
                uid,
                true,
                "user",
                codec::uuid_text(uid).as_str(),
                form.role_id.as_str(),
            );
            let reply = if is_htmx {
                web::Reply::Page(render_roles_tab(session, uid, records))
            } else {
                web::Reply::Redirect(users::user_url(user_id, "role_assigned"))
            };
            web::Outcome::logged(reply, event)
        },
        Err(e) => web::Outcome::silent(
            refuse(is_htmx, user_id, e.text.as_str(), "assign_role_failed"),
        ),
    }
}

/// Reads which assignment to take back from which user.
pub fn admin_user_unassign_role_request(csrf_ok: bool, user_id: &str, assignment_id: &str) -> (r:
    Result<(u128, u128), web::Reply<UserRolesTabTemplate>>)
    ensures
        web::names_two(
            r,
            csrf_ok,
            user_id@,
            "User not found"@,
            assignment_id@,
            "Assignment not found"@,
        ),
{
    web::require_two(csrf_ok, user_id, "User not found", assignment_id, "Assignment not found")
}

/// Answers after the engine tried to take an assignment back.
pub fn admin_user_unassign_role(
    session: &web::UiSession,
    realm_id: u128,
    user_id: &str,
    uid: u128,
    assignment_id: &str,
    is_htmx: bool,
    unassigned: Result<(), web::EngineError>,
    records: &RoleRecords,
) -> (r: web::Outcome<UserRolesTabTemplate>)
    ensures
        match unassigned {
            Ok(_) => {
                &&& r.log() == seq![
                    members::role_event(
                        *session,
                        realm_id,
                        uid,
                        false,
                        "user"@,
                        codec::hyphenated(uid),
                        assignment_id@,
                    ),
                ]
                &&& is_htmx ==> r.reply is Page && r.reply->Page_0.shows(*session, uid, *records)
                &&& !is_htmx ==> r.reply.redirects(
                    users::user_address(user_id@, "role_unassigned"@),
                )
            },
            Err(e) => r.is_silent() && refuses(
                r.reply,
                is_htmx,
                user_id@,
                e.text@,
                "unassign_role_failed"@,
            ),
        },
{
    match unassigned {
        Ok(_) => {
            let event = members::audit_role_event(
                session,
                realm_id,
                uid,
                false,
                "user",
                codec::uuid_text(uid).as_str(),
                assignment_id,
            );
            let reply = if is_htmx {
                web::Reply::Page(render_roles_tab(session, uid, records))
            } else {
                web::Reply::Redirect(users::user_url(user_id, "role_unassigned"))
            };
            web::Outcome::logged(reply, event)
        },
        Err(e) => web::Outcome::silent(
            refuse(is_htmx, user_id, e.text.as_str(), "unassign_role_failed"),
        ),
    }
}

// ---------------------------------------------------------------------------
// Permissions
// ---------------------------------------------------------------------------

/// The form that grants a permission.
pub struct GrantPermissionForm {
    pub csrf: String,
    pub permission: String,
    pub scope: String,
}

/// The form that revokes a permission.
pub struct RevokePermissionForm {
    pub csrf: String,
    pub permission: String,
    pub scope: String,
}

/// What the engine is asked to grant.
pub struct GrantRequest {
    pub user_id: u128,
    pub permission: String,
    pub scope: access::Scope,
    pub granted_at: i64,
    pub granted_by: u128,
}

/// What the engine is asked to revoke.
pub struct RevokeRequest {
    pub user_id: u128,
    pub permission: String,
    pub scope: access::Scope,
}

/// The permission that the form names, for the engine to check: without white
/// space around it.
pub fn admin_user_grant_permission_text(form: &GrantPermissionForm) -> (r: String)
    ensures
        r@ == text::trimmed(form.permission@),
{
    text::trim(form.permission.as_str())
}

/// Reads which permission to grant to which user, where. `permission` is what
/// the engine made of the form's text, where it accepts it.
pub fn admin_user_grant_permission_request(
    csrf_ok: bool,
    session: &web::UiSession,
    user_id: &str,
    permission: Option<String>,
    form: &GrantPermissionForm,
    is_htmx: bool,
) -> (r: Result<GrantRequest, web::Reply<UserPermissionsTabTemplate>>)
    ensures
        !csrf_ok ==> r is Err && r->Err_0 is Forbidden,
        csrf_ok ==> match codec::uuid_of(user_id@) {
            None => r is Err && r->Err_0.not_found("User not found"@),
            Some(uid) => match permission {
                None => r is Err && refuses(
                    r->Err_0,
                    is_htmx,
                    user_id@,
                    "Invalid permission string (use dot-separated segments, e.g. users.read)"@,
                    "invalid_permission"@,
                ),
                Some(p) => match access::scope_meant(form.scope@, access::uuid_reading()) {
                    Err(_) => r is Err && refuses(
                        r->Err_0,
                        is_htmx,
                        user_id@,
                        "Invalid scope"@,
                        "invalid_scope"@,
                    ),
                    Ok(scope) => r is Ok && r->Ok_0 == (GrantRequest {
                        user_id: uid,
                        permission: p,
                        scope,
                        granted_at: 0,
                        granted_by: session.user_id,
                    }),
                },
            },
        },
{
    let uid: u128 = match web::require_one(csrf_ok, user_id, "User not found") {
        Ok(id) => id,
        Err(reply) => return Err(reply),
    };
    let permission = match permission {
        Some(p) => p,
        None => return Err(
            refuse(
                is_htmx,
                user_id,
                "Invalid permission string (use dot-separated segments, e.g. users.read)",
                "invalid_permission",
            ),
        ),
    };
    match access::parse_rbac_scope(form.scope.as_str()) {
        Ok(scope) => Ok(
            GrantRequest {
                user_id: uid,
                permission,
                scope,
                granted_at: 0,
                granted_by: session.user_id,
            },
        ),
        Err(_) => Err(refuse(is_htmx, user_id, "Invalid scope", "invalid_scope")),
    }
}

/// The event of a permission that a user got or lost.
pub open spec fn permission_event(
    session: web::UiSession,
    realm_id: u128,
    user_id: u128,
    granted: bool,
    permission: Seq<char>,
    scope: Seq<char>,
) -> web::AuditEventView {
    web::ui_event(
        session,
        realm_id,
        if granted {
            web::AuditAction::UserPermissionGranted
        } else {
            web::AuditAction::UserPermissionRevoked
        },
        "user"@,
        codec::hyphenated(user_id),
        seq![
            ("via"@, web::MetaView::Text("ui"@)),
            ("permission"@, web::MetaView::Text(permission)),
            ("scope"@, web::MetaView::Text(scope)),
        ],
    )
}

fn audit_permission_event(
    session: &web::UiSession,
    realm_id: u128,
    user_id: u128,
    granted: bool,
    permission: &str,
    scope: &str,
) -> (r: web::AuditEvent)
    ensures
        r@ == permission_event(*session, realm_id, user_id, granted, permission@, scope@),
{
    let action = if granted {
        web::AuditAction::UserPermissionGranted
    } else {
        web::AuditAction::UserPermissionRevoked
    };
    let mut metadata: Vec<(String, web::Meta)> = Vec::new();
    metadata.push(web::meta_text("via", "ui"));
    metadata.push(web::meta_text("permission", permission));
    metadata.push(web::meta_text("scope", scope));
    let r = web::record(
        session,
        realm_id,
        action,
        "user",
        codec::uuid_text(user_id).as_str(),
        metadata,
    );
    proof {
        assert(r@.metadata =~= permission_event(
            *session,
            realm_id,
            user_id,
            granted,
            permission@,
            scope@,
        ).metadata);
    }
    r
}

/// Answers after the engine tried to grant a permission.
pub fn admin_user_grant_permission(
    session: &web::UiSession,
    realm_id: u128,
    user_id: &str,
    request: &GrantRequest,
    form: &GrantPermissionForm,
    is_htmx: bool,
    granted: Result<(), web::EngineError>,
    records: &PermissionRecords,
) -> (r: web::Outcome<UserPermissionsTabTemplate>)
    ensures
        match granted {
            Ok(_) => {
                &&& r.log() == seq![
                    permission_event(
                        *session,
                        realm_id,
                        request.user_id,
                        true,
                        request.permission@,
                        form.scope@,
                    ),
                ]
                &&& is_htmx ==> r.reply is Page && r.reply->Page_0.shows(
                    *session,
                    request.user_id,
                    *records,
                )
                &&& !is_htmx ==> r.reply.redirects(
                    users::user_address(user_id@, "permission_granted"@),
                )
            },
            Err(e) => r.is_silent() && refuses(
                r.reply,
                is_htmx,
                user_id@,
                e.text@,
                "grant_permission_failed"@,
            ),
        },
{
    match granted {
        Ok(_) => {
            let event = audit_permission_event(
                session,
                realm_id,
                request.user_id,
                true,
                request.permission.as_str(),
                form.scope.as_str(),
            );
            let reply = if is_htmx {
                web::Reply::Page(render_permissions_tab(session, request.user_id, records))
            } else {
                web::Reply::Redirect(users::user_url(user_id, "permission_granted"))
            };
            web::Outcome::logged(reply, event)
        },
        Err(e) => web::Outcome::silent(
            refuse(is_htmx, user_id, e.text.as_str(), "grant_permission_failed"),
        ),
    }
}

/// Reads which permission to revoke from which user, where. `permission` is
/// what the engine made of the form's text, where it accepts it.
pub fn admin_user_revoke_permission_request(
    csrf_ok: bool,
    user_id: &str,
    permission: Option<String>,
    form: &RevokePermissionForm,
    is_htmx: bool,
) -> (r: Result<RevokeRequest, web::Reply<UserPermissionsTabTemplate>>)
    ensures
        !csrf_ok ==> r is Err && r->Err_0 is Forbidden,
        csrf_ok ==> match codec::uuid_of(user_id@) {
            None => r is Err && r->Err_0.not_found("User not found"@),
            Some(uid) => match permission {
                None => r is Err && refuses(
                    r->Err_0,
                    is_htmx,
                    user_id@,
                    "Invalid permission string"@,
                    "invalid_permission"@,
                ),
                Some(p) => match access::scope_meant(form.scope@, access::uuid_reading()) {
                    Err(_) => r is Err && refuses(
                        r->Err_0,
                        is_htmx,
                        user_id@,
                        "Invalid scope"@,
                        "invalid_scope"@,
                    ),
                    Ok(scope) => r is Ok && r->Ok_0 == (RevokeRequest {
                        user_id: uid,
                        permission: p,
                        scope,
                    }),
                },
            },
        },
{
    let uid: u128 = match web::require_one(csrf_ok, user_id, "User not found") {
        Ok(id) => id,
        Err(reply) => return Err(reply),
    };
    let permission = match permission {
        Some(p) => p,
        None => return Err(
            refuse(is_htmx, user_id, "Invalid permission string", "invalid_permission"),
        ),
    };
    match access::parse_rbac_scope(form.scope.as_str()) {
        Ok(scope) => Ok(RevokeRequest { user_id: uid, permission, scope }),
        Err(_) => Err(refuse(is_htmx, user_id, "Invalid scope", "invalid_scope")),
    }
}

/// Answers after the engine tried to revoke a permission.
pub fn admin_user_revoke_permission(
    session: &web::UiSession,
    realm_id: u128,
    user_id: &str,
    request: &RevokeRequest,
    form: &RevokePermissionForm,
    is_htmx: bool,
    revoked: Result<(), web::EngineError>,
    records: &PermissionRecords,
) -> (r: web::Outcome<UserPermissionsTabTemplate>)
    ensures
        match revoked {
            Ok(_) => {
                &&& r.log() == seq![
                    permission_event(
                        *session,
                        realm_id,
                        request.user_id,
                        false,
                        request.permission@,
                        form.scope@,
                    ),
                ]
                &&& is_htmx ==> r.reply is Page && r.reply->Page_0.shows(
                    *session,
                    request.user_id,
                    *records,
                )
                &&& !is_htmx ==> r.reply.redirects(
                    users::user_address(user_id@, "permission_revoked"@),
                )
            },
            Err(e) => r.is_silent() && refuses(
                r.reply,
                is_htmx,
                user_id@,
                e.text@,
                "revoke_permission_failed"@,
            ),
        },
{
    match revoked {
        Ok(_) => {
            let event = audit_permission_event(
                session,
                realm_id,
                request.user_id,
                false,
                request.permission.as_str(),
                form.scope.as_str(),
            );
            let reply = if is_htmx {
                web::Reply::Page(render_permissions_tab(session, request.user_id, records))
            } else {
                web::Reply::Redirect(users::user_url(user_id, "permission_revoked"))
            };
            web::Outcome::logged(reply, event)
        },
        Err(e) => web::Outcome::silent(
            refuse(is_htmx, user_id, e.text.as_str(), "revoke_permission_failed"),
        ),
    }
}

/// Where the tab shows a user's roles: each part of what that says.
pub proof fn law_user_roles_tab_template_shows(
    page: UserRolesTabTemplate,
    session: web::UiSession,
    user_id: u128,
    records: RoleRecords,
)
    requires
        page.shows(session, user_id, records),
    ensures
        page.user_id@ == codec::hyphenated(user_id),
        text::views(page.role_assignments@) == access::assignment_rows(records.held@),
        text::views(page.available_roles@) == access::role_choices(records.roles@),
        text::views(page.available_orgs@) == access::org_choices(records.orgs@),
        page.role_perms_json@ == json::or_empty_object(
            json::lists_json(users::role_entries(access::role_choices(records.roles@))),
        ),
        text::opt_text(page.csrf) == text::opt_text(session.csrf),
{
}

/// Where the tab shows a user's permissions: each part of what that says.
pub proof fn law_user_permissions_tab_template_shows(
    page: UserPermissionsTabTemplate,
    session: web::UiSession,
    user_id: u128,
    records: PermissionRecords,
)
    requires
        page.shows(session, user_id, records),
    ensures
        page.user_id@ == codec::hyphenated(user_id),
        text::views(page.extra_permissions@) == access::grant_rows(records.grants@),
        text::views(page.role_inherited_groups@) == access::inherited_groups(
            access::assignment_rows(records.held@),
        ),
        text::texts(page.available_permissions@) == access::grantable(
            order::sorted_set(access::all_permissions(records.roles@)),
            records.held@,
            text::texts(records.effective@),
            access::grant_rows(records.grants@),
        ),
        text::views(page.available_orgs@) == access::org_choices(records.orgs@),
        text::opt_text(page.csrf) == text::opt_text(session.csrf),
{
}

/// A refused request about a user is told in place, or by its key on the page of
/// that user.
pub proof fn law_refuses<P>(
    r: web::Reply<P>,
    is_htmx: bool,
    user_id: Seq<char>,
    message: Seq<char>,
    flash: Seq<char>,
)
    requires
        refuses(r, is_htmx, user_id, message, flash),
    ensures
        is_htmx ==> (r matches web::Reply::Toast { message: m, kind: k } && m@ == message
            && k is Error),
        !is_htmx ==> (r matches web::Reply::Redirect(u) && u@ == "/ui/admin/users/"@ + user_id
            + "?flash="@ + flash),
{
}

/// Granting and taking a permission are recorded of the user, with the permission
/// and the scope.
pub proof fn law_permission_event(
    session: web::UiSession,
    realm_id: u128,
    user_id: u128,
    granted: bool,
    permission: Seq<char>,
    scope: Seq<char>,
)
    ensures
        ({
            let e = permission_event(session, realm_id, user_id, granted, permission, scope);
            &&& e.realm_id == realm_id
            &&& e.actor == codec::hyphenated(session.user_id)
            &&& granted ==> e.action is UserPermissionGranted
            &&& !granted ==> e.action is UserPermissionRevoked
            &&& e.resource_type == "user"@
            &&& e.resource_id == codec::hyphenated(user_id)
            &&& web::told(e.metadata, "via"@) == Some(web::MetaView::Text("ui"@))
            &&& web::told(e.metadata, "permission"@) == Some(web::MetaView::Text(permission))
            &&& web::told(e.metadata, "scope"@) == Some(web::MetaView::Text(scope))
        }),
{
    reveal_strlit("via");
    reveal_strlit("permission");
    reveal_strlit("scope");
    assert("via"@.len() == 3 && "permission"@.len() == 10 && "scope"@.len() == 5);
    let m = permission_event(session, realm_id, user_id, granted, permission, scope).metadata;
    assert(m.last().0 == "scope"@);
    assert(m.drop_last().last().0 == "permission"@);
    assert(m.drop_last().drop_last().last().0 == "via"@);
    reveal_with_fuel(web::told, 4);
}

} // verus!
