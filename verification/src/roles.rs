//! Roles: the list, the role page, creation, editing and deletion.

use crate::access;
use crate::clients;
use crate::codec;
use crate::order;
use crate::text;
use crate::web;
use vstd::prelude::*;
use vstd::string::*;

verus! {

// ---------------------------------------------------------------------------
// The list
// ---------------------------------------------------------------------------

/// A role in the list.
pub struct RoleRow {
    pub id: String,
    pub name: String,
    pub scope: String,
    /// The permissions that the role grants itself, each once, sorted.
    pub permissions: Vec<String>,
    pub description: String,
}

/// A role row without its representation.
#[verifier::ext_equal]
pub struct RoleLine {
    pub id: Seq<char>,
    pub name: Seq<char>,
    pub scope: Seq<char>,
    pub permissions: Seq<Seq<char>>,
    pub description: Seq<char>,
}

impl View for RoleRow {
    type V = RoleLine;

    open spec fn view(&self) -> RoleLine {
        RoleLine {
            id: self.id@,
            name: self.name@,
            scope: self.scope@,
            permissions: text::texts(self.permissions@),
            description: self.description@,
        }
    }
}

/// How a role is listed.
pub open spec fn role_line(role: access::Role) -> RoleLine {
    RoleLine {
        id: codec::hyphenated(role.id),
        name: role.name@,
        scope: role.scope_kind.wire(),
        permissions: order::sorted_set(text::texts(role.permissions@)),
        description: access::text_or_empty(role.description),
    }
}

/// How roles are listed.
pub open spec fn role_lines(roles: Seq<access::Role>) -> Seq<RoleLine> {
    Seq::new(roles.len(), |i: int| role_line(roles[i]))
}

/// The list of the roles of a realm.
pub struct RbacRolesTemplate {
    pub roles: Vec<RoleRow>,
    pub realm_name: String,
    pub active_tab: String,
    pub chrome: web::Chrome,
}

/// Shows the roles of a realm.
pub fn admin_rbac_roles(
    site: &web::Site,
    session: &web::UiSession,
    target: &web::TargetRealm,
    roles: &Vec<access::Role>,
) -> (r: web::Reply<RbacRolesTemplate>)
    ensures
        r is Page && {
            let p = r->Page_0;
            &&& text::views(p.roles@) == role_lines(roles@)
            &&& p.realm_name@ == target.name@
            &&& p.active_tab@ == "rbac_roles"@
            &&& p.chrome.is_admin_page(*site, *session, "rbac_roles"@)
            &&& p.chrome.flash is None
        },
{
    let mut rows: Vec<RoleRow> = Vec::new();
    let mut i: usize = 0;
    while i < roles.len()
        invariant
            i <= roles.len(),
            rows.len() == i,
            forall|j: int| 0 <= j < i ==> (#[trigger] rows@[j])@ == role_line(roles@[j]),
        decreases roles.len() - i,
    {
        let role = &roles[i];
        rows.push(
            RoleRow {
                id: codec::uuid_text(role.id),
                name: role.name.clone(),
                scope: role.scope_kind.wire_name(),
                permissions: order::sort_dedup(text::clone_all(&role.permissions)),
                description: access::or_empty(&role.description),
            },
        );
        i += 1;
    }
    proof {
        assert(text::views(rows@) =~= role_lines(roles@));
    }
    web::Reply::Page(
        RbacRolesTemplate {
            roles: rows,
            realm_name: target.name.clone(),
            active_tab: "rbac_roles".to_owned(),
            chrome: web::Chrome::admin(site, session, "rbac_roles"),
        },
    )
}

// ---------------------------------------------------------------------------
// The role page
// ---------------------------------------------------------------------------

/// The role page.
pub struct RoleDetailTemplate {
    pub role: access::Role,
    pub scope: String,
    pub realm_name: String,
    pub active_tab: String,
    pub chrome: web::Chrome,
}

/// Reads which role a page is about.
pub fn role_request(rid: &str) -> (r: Result<u128, web::Reply<()>>)
    ensures
        web::names_one(r, true, rid@, "Role not found"@),
{
    web::require_one(true, rid, "Role not found")
}

/// Shows a role.
pub fn admin_role_detail(
    site: &web::Site,
    session: &web::UiSession,
    target: &web::TargetRealm,
    found: Result<Option<access::Role>, web::EngineError>,
) -> (r: web::Reply<RoleDetailTemplate>)
    ensures
        match found {
            Err(_) => r is ServerError,
            Ok(None) => r.not_found("Role not found"@),
            Ok(Some(role)) => r is Page && {
                let p = r->Page_0;
                &&& p.role == role
                &&& p.scope@ == role.scope_kind.wire()
                &&& p.realm_name@ == target.name@
                &&& p.active_tab@ == "rbac_roles"@
                &&& p.chrome.is_admin_page(*site, *session, "rbac_roles"@)
                &&& p.chrome.flash is None
            },
        },
{
    match found {
        Err(_) => web::Reply::ServerError,
        Ok(None) => web::Reply::missing("Role not found"),
        Ok(Some(role)) => web::Reply::Page(
            RoleDetailTemplate {
                scope: role.scope_kind.wire_name(),
                role,
                realm_name: target.name.clone(),
                active_tab: "rbac_roles".to_owned(),
                chrome: web::Chrome::admin(site, session, "rbac_roles"),
            },
        ),
    }
}

/// The address of a role's page.
pub open spec fn role_address(target: web::TargetRealm, role_id: u128) -> Seq<char> {
    "/ui/admin/realms/"@ + target.name@ + "/rbac/roles/"@ + codec::hyphenated(role_id)
}

fn role_url(target: &web::TargetRealm, role_id: u128) -> (r: String)
    ensures
        r@ == role_address(*target, role_id),
{
    "/ui/admin/realms/".to_owned().concat(target.name.as_str()).concat("/rbac/roles/").concat(
        codec::uuid_text(role_id).as_str(),
    )
}

// ---------------------------------------------------------------------------
// Permissions in a form
// ---------------------------------------------------------------------------

/// A line of the permissions field with the engine's verdict on it: the
/// permission, or why it is none.
pub struct CheckedPermission {
    pub line: String,
    pub verdict: Result<String, web::EngineError>,
}

/// The lines of the permissions field, for the engine to check.
pub fn permission_lines(raw: &str) -> (r: Vec<String>)
    ensures
        text::texts(r@) == text::filled_lines(raw@),
{
    text::read_lines(raw)
}

/// What is wrong with the first line that holds no permission.
pub open spec fn first_fault(lines: Seq<CheckedPermission>) -> Option<Seq<char>>
    decreases lines.len(),
{
    if lines.len() == 0 {
        None
    } else {
        match lines[0].verdict {
            Err(e) => Some("Invalid permission '"@ + lines[0].line@ + "': "@ + e.text@),
            Ok(_) => first_fault(lines.skip(1)),
        }
    }
}

/// The permission on a line that holds one.
pub open spec fn permission_on(line: CheckedPermission) -> Seq<char> {
    match line.verdict {
        Ok(p) => p@,
        Err(_) => Seq::empty(),
    }
}

/// The permissions of lines that all hold one.
pub open spec fn accepted(lines: Seq<CheckedPermission>) -> Seq<Seq<char>> {
    Seq::new(lines.len(), |i: int| permission_on(lines[i]))
}

/// Reads the permissions field, given the engine's verdict on each line: all
/// permissions, or what is wrong with the first line that holds none.
pub fn parse_permissions_field(lines: &Vec<CheckedPermission>) -> (r: Result<Vec<String>, String>)
    ensures
        match first_fault(lines@) {
            Some(fault) => r is Err && r->Err_0@ == fault,
            None => r is Ok && text::texts(r->Ok_0@) == accepted(lines@),
        },
{
    let mut out: Vec<String> = Vec::new();
    let mut i: usize = 0;
    proof {
        assert(lines@.skip(0) =~= lines@);
    }
    while i < lines.len()
        invariant
            i <= lines.len(),
            out.len() == i,
            first_fault(lines@) == first_fault(lines@.skip(i as int)),
            forall|j: int| 0 <= j < i ==> (#[trigger] out@[j])@ == permission_on(lines@[j]),
        decreases lines.len() - i,
    {
        proof {
            assert(lines@.skip(i as int)[0] == lines@[i as int]);
            assert(lines@.skip(i as int).skip(1) =~= lines@.skip(i + 1));
        }
        match &lines[i].verdict {
            Ok(p) => {
                out.push(p.clone());
            },
            Err(e) => {
                return Err(
                    "Invalid permission '".to_owned().concat(lines[i].line.as_str()).concat(
                        "': ",
                    ).concat(e.text.as_str()),
                );
            },
        }
        i += 1;
    }
    proof {
        assert(text::texts(out@) =~= accepted(lines@));
    }
    Ok(out)
}

/// The permissions field is read exactly where each of its lines holds a
/// permission.
pub proof fn law_faultless(lines: Seq<CheckedPermission>)
    ensures
        first_fault(lines) is None <==> forall|i: int|
            0 <= i < lines.len() ==> (#[trigger] lines[i]).verdict is Ok,
    decreases lines.len(),
{
    if lines.len() > 0 {
        let rest = lines.skip(1);
        law_faultless(rest);
        if first_fault(lines) is None {
            assert forall|i: int| 0 <= i < lines.len() implies (#[trigger] lines[i]).verdict is Ok by {
                if i > 0 {
                    assert(rest[i - 1] == lines[i]);
                }
            }
        }
        if forall|i: int| 0 <= i < lines.len() ==> (#[trigger] lines[i]).verdict is Ok {
            assert(lines[0].verdict is Ok);
            assert forall|i: int| 0 <= i < rest.len() implies (#[trigger] rest[i]).verdict is Ok by {
                assert(lines[i + 1] == rest[i]);
            }
        }
    }
}

// ---------------------------------------------------------------------------
// Creation
// ---------------------------------------------------------------------------

/// The fields of a role form as the page shows them.
pub struct RoleFields {
    pub name: String,
    pub description: String,
    pub scope_kind: String,
    /// One permission on each line.
    pub permissions: String,
}

/// The fields of a role form without their representation.
#[verifier::ext_equal]
pub struct RoleFieldsView {
    pub name: Seq<char>,
    pub description: Seq<char>,
    pub scope_kind: Seq<char>,
    pub permissions: Seq<char>,
}

impl View for RoleFields {
    type V = RoleFieldsView;

    open spec fn view(&self) -> RoleFieldsView {
        RoleFieldsView {
            name: self.name@,
            description: self.description@,
            scope_kind: self.scope_kind@,
            permissions: self.permissions@,
        }
    }
}

/// The fields of the empty form.
pub open spec fn blank_fields() -> RoleFieldsView {
    RoleFieldsView {
        name: Seq::empty(),
        description: Seq::empty(),
        scope_kind: "realm"@,
        permissions: Seq::empty(),
    }
}

/// The page that creates a role.
pub struct RoleNewTemplate {
    pub error: Option<String>,
    pub realm_name: String,
    pub form: RoleFields,
    pub active_tab: String,
    pub chrome: web::Chrome,
}

impl RoleNewTemplate {
    /// Whether the page shows a form and an error.
    pub open spec fn shows(
        self,
        site: web::Site,
        session: web::UiSession,
        realm_name: Seq<char>,
        form: RoleFieldsView,
        error: Option<Seq<char>>,
    ) -> bool {
        &&& text::opt_text(self.error) == error
        &&& self.realm_name@ == realm_name
        &&& self.form@ == form
        &&& self.active_tab@ == "rbac_roles"@
        &&& self.chrome.is_admin_page(site, session, "rbac_roles"@)
        &&& self.chrome.flash is None
    }

    /// The page with the empty form.
    pub fn blank(realm_name: &str, session: &web::UiSession, site: &web::Site) -> (r:
        RoleNewTemplate)
        ensures
            r.shows(*site, *session, realm_name@, blank_fields(), None),
    {
        RoleNewTemplate {
            error: None,
            realm_name: realm_name.to_owned(),
            form: RoleFields {
                name: String::new(),
                description: String::new(),
                scope_kind: "realm".to_owned(),
                permissions: String::new(),
            },
            active_tab: "rbac_roles".to_owned(),
            chrome: web::Chrome::admin(site, session, "rbac_roles"),
        }
    }
}

/// Shows the empty form.
pub fn admin_role_create_form(
    site: &web::Site,
    session: &web::UiSession,
    target: &web::TargetRealm,
) -> (r: web::Reply<RoleNewTemplate>)
    ensures
        r is Page && r->Page_0.shows(*site, *session, target.name@, blank_fields(), None),
{
    web::Reply::Page(RoleNewTemplate::blank(target.name.as_str(), session, site))
}

/// The form that creates a role.
pub struct RoleCreateForm {
    pub name: String,
    pub description: String,
    pub scope_kind: String,
    pub permissions: String,
    pub csrf: String,
}

/// The form as it was submitted.
pub open spec fn created_fields(form: RoleCreateForm) -> RoleFieldsView {
    RoleFieldsView {
        name: form.name@,
        description: form.description@,
        scope_kind: form.scope_kind@,
        permissions: form.permissions@,
    }
}

fn repeat_create_form(
    site: &web::Site,
    session: &web::UiSession,
    target: &web::TargetRealm,
    form: &RoleCreateForm,
    error: String,
) -> (r: web::Reply<RoleNewTemplate>)
    ensures
        r is Page && r->Page_0.shows(
            *site,
            *session,
            target.name@,
            created_fields(*form),
            Some(error@),
        ),
{
    let mut page = RoleNewTemplate::blank(target.name.as_str(), session, site);
    page.error = Some(error);
    page.form =
    RoleFields {
        name: form.name.clone(),
        description: form.description.clone(),
        scope_kind: form.scope_kind.clone(),
        permissions: form.permissions.clone(),
    };
    web::Reply::Page(page)
}

/// What the engine is asked to create; the role has no parents.
pub struct CreateRoleRequest {
    pub name: String,
    pub description: Option<String>,
    pub permissions: Vec<String>,
    pub scope_kind: access::RoleScopeKind,
}

/// Reads what to create; `lines` are those of the permissions field with the
/// engine's verdicts.
pub fn admin_role_create_submit_request(
    csrf_ok: bool,
    site: &web::Site,
    session: &web::UiSession,
    target: &web::TargetRealm,
    form: &RoleCreateForm,
    lines: &Vec<CheckedPermission>,
) -> (r: Result<CreateRoleRequest, web::Reply<RoleNewTemplate>>)
    ensures
        !csrf_ok ==> r is Err && r->Err_0 is Forbidden,
        csrf_ok ==> match first_fault(lines@) {
            Some(fault) => r is Err && r->Err_0 is Page && r->Err_0->Page_0.shows(
                *site,
                *session,
                target.name@,
                created_fields(*form),
                Some(fault),
            ),
            None => r is Ok && {
                let q = r->Ok_0;
                &&& q.name@ == form.name@
                &&& text::opt_text(q.description) == clients::given(form.description@)
                &&& text::texts(q.permissions@) == accepted(lines@)
                &&& q.scope_kind == access::kind_of(form.scope_kind@)
            },
        },
{
    if !csrf_ok {
        return Err(web::Reply::Forbidden);
    }
    match parse_permissions_field(lines) {
        Err(fault) => Err(repeat_create_form(site, session, target, form, fault)),
        Ok(permissions) => Ok(
            CreateRoleRequest {
                name: form.name.clone(),
                description: clients::take_given(form.description.as_str()),
                permissions,
                scope_kind: access::parse_scope_kind(form.scope_kind.as_str()),
            },
        ),
    }
}

/// Answers after the engine tried to create a role.
pub fn admin_role_create_submit(
    site: &web::Site,
    session: &web::UiSession,
    target: &web::TargetRealm,
    form: &RoleCreateForm,
    created: Result<u128, web::EngineError>,
) -> (r: web::Reply<RoleNewTemplate>)
    ensures
        match created {
            Ok(id) => r.redirects(role_address(*target, id)),
            Err(e) => r is Page && match e.kind {
                web::ErrorKind::DuplicateRoleName => r->Page_0.shows(
                    *site,
                    *session,
                    target.name@,
                    created_fields(*form),
                    Some("A role with that name already exists in this realm."@),
                ),
                web::ErrorKind::InvalidRoleName(reason) => r->Page_0.shows(
                    *site,
                    *session,
                    target.name@,
                    created_fields(*form),
                    Some(reason@),
                ),
                _ => r->Page_0.shows(
                    *site,
                    *session,
                    target.name@,
                    blank_fields(),
                    Some("Unable to create role right now."@),
                ),
            },
        },
{
    match created {
        Ok(id) => web::Reply::Redirect(role_url(target, id)),
        Err(e) => match e.kind {
            web::ErrorKind::DuplicateRoleName => repeat_create_form(
                site,
                session,
                target,
                form,
                "A role with that name already exists in this realm.".to_owned(),
            ),
            web::ErrorKind::InvalidRoleName(reason) => repeat_create_form(
                site,
                session,
                target,
                form,
                reason,
            ),
            _ => {
                let mut page = RoleNewTemplate::blank(target.name.as_str(), session, site);
                page.error = Some("Unable to create role right now.".to_owned());
                web::Reply::Page(page)
            },
        },
    }
}

// ---------------------------------------------------------------------------
// Editing
// ---------------------------------------------------------------------------

/// The page that edits a role.
pub struct RoleEditTemplate {
    pub role: access::Role,
    pub error: Option<String>,
    pub realm_name: String,
    pub form: RoleFields,
    pub active_tab: String,
    pub chrome: web::Chrome,
}

/// The form that shows what a role is.
pub open spec fn role_fields(role: access::Role) -> RoleFieldsView {
    RoleFieldsView {
        name: role.name@,
        description: access::text_or_empty(role.description),
        scope_kind: role.scope_kind.wire(),
        permissions: text::joined(text::texts(role.permissions@), "\n"@),
    }
}

impl RoleEditTemplate {
    /// Whether the page shows a form about a role, and an error.
    pub open spec fn shows(
        self,
        site: web::Site,
        session: web::UiSession,
        realm_name: Seq<char>,
        role: access::Role,
        form: RoleFieldsView,
        error: Option<Seq<char>>,
    ) -> bool {
        &&& self.role == role
        &&& text::opt_text(self.error) == error
        &&& self.realm_name@ == realm_name
        &&& self.form@ == form
        &&& self.active_tab@ == "rbac_roles"@
        &&& self.chrome.is_admin_page(site, session, "rbac_roles"@)
        &&& self.chrome.flash is None
    }

    /// The page that shows what a role is.
    pub fn from_role(
        role: access::Role,
        realm_name: &str,
        session: &web::UiSession,
        site: &web::Site,
    ) -> (r: RoleEditTemplate)
        ensures
            r.shows(*site, *session, realm_name@, role, role_fields(role), None),
    {
        RoleEditTemplate {
            error: None,
            realm_name: realm_name.to_owned(),
            form: RoleFields {
                name: role.name.clone(),
                description: access::or_empty(&role.description),
                scope_kind: role.scope_kind.wire_name(),
                permissions: text::join(&role.permissions, "\n"),
            },
            role,
            active_tab: "rbac_roles".to_owned(),
            chrome: web::Chrome::admin(site, session, "rbac_roles"),
        }
    }
}

/// Shows the form, filled in with what the role is.
pub fn admin_role_edit_form(
    site: &web::Site,
    session: &web::UiSession,
    target: &web::TargetRealm,
    found: Result<Option<access::Role>, web::EngineError>,
) -> (r: web::Reply<RoleEditTemplate>)
    ensures
        match found {
            Err(_) => r is ServerError,
            Ok(None) => r.not_found("Role not found"@),
            Ok(Some(role)) => r is Page && r->Page_0.shows(
                *site,
                *session,
                target.name@,
                role,
                role_fields(role),
                None,
            ),
        },
{
    match found {
        Err(_) => web::Reply::ServerError,
        Ok(None) => web::Reply::missing("Role not found"),
        Ok(Some(role)) => web::Reply::Page(
            RoleEditTemplate::from_role(role, target.name.as_str(), session, site),
        ),
    }
}

/// The form that edits a role.
pub struct RoleEditForm {
    pub name: String,
    pub description: String,
    pub scope_kind: String,
    pub permissions: String,
    pub csrf: String,
}

/// The form as it was submitted.
pub open spec fn edited_fields(form: RoleEditForm) -> RoleFieldsView {
    RoleFieldsView {
        name: form.name@,
        description: form.description@,
        scope_kind: form.scope_kind@,
        permissions: form.permissions@,
    }
}

/// Whether the form is shown again with an error; the engine failed where the
/// role is gone.
pub open spec fn repeats_edit(
    r: web::Reply<RoleEditTemplate>,
    site: web::Site,
    session: web::UiSession,
    target: web::TargetRealm,
    role: Option<access::Role>,
    form: RoleEditForm,
    error: Seq<char>,
) -> bool {
    match role {
        Some(found) => r is Page && r->Page_0.shows(
            site,
            session,
            target.name@,
            found,
            edited_fields(form),
            Some(error),
        ),
        None => r is ServerError,
    }
}

fn repeat_edit_form(
    site: &web::Site,
    session: &web::UiSession,
    target: &web::TargetRealm,
    role: Option<access::Role>,
    form: &RoleEditForm,
    error: String,
) -> (r: web::Reply<RoleEditTemplate>)
    ensures
        repeats_edit(r, *site, *session, *target, role, *form, error@),
{
    match role {
        None => web::Reply::ServerError,
        Some(role) => {
            let mut page = RoleEditTemplate::from_role(role, target.name.as_str(), session, site);
            page.error = Some(error);
            page.form =
            RoleFields {
                name: form.name.clone(),
                description: form.description.clone(),
                scope_kind: form.scope_kind.clone(),
                permissions: form.permissions.clone(),
            };
            web::Reply::Page(page)
        },
    }
}

/// What the engine is asked to change: an absent name stays, an absent
/// description is taken away, parents and status stay.
pub struct UpdateRoleRequest {
    pub role_id: u128,
    pub name: Option<String>,
    pub description: Option<String>,
    pub permissions: Vec<String>,
    pub scope_kind: access::RoleScopeKind,
}

/// Reads what to change of which role. `lines` are those of the permissions
/// field with the engine's verdicts; `role` is read where one of them is bad.
pub fn admin_role_edit_submit_request(
    csrf_ok: bool,
    site: &web::Site,
    session: &web::UiSession,
    target: &web::TargetRealm,
    rid: &str,
    form: &RoleEditForm,
    lines: &Vec<CheckedPermission>,
    role: Option<access::Role>,
) -> (r: Result<UpdateRoleRequest, web::Reply<RoleEditTemplate>>)
    ensures
        !csrf_ok ==> r is Err && r->Err_0 is Forbidden,
        csrf_ok ==> match codec::uuid_of(rid@) {
            None => r is Err && r->Err_0.not_found("Role not found"@),
            Some(id) => match first_fault(lines@) {
                Some(fault) => r is Err && repeats_edit(
                    r->Err_0,
                    *site,
                    *session,
                    *target,
                    role,
                    *form,
                    fault,
                ),
                None => r is Ok && {
                    let q = r->Ok_0;
                    &&& q.role_id == id
                    &&& text::opt_text(q.name) == clients::given(form.name@)
                    &&& text::opt_text(q.description) == clients::given(form.description@)
                    &&& text::texts(q.permissions@) == accepted(lines@)
                    &&& q.scope_kind == access::kind_of(form.scope_kind@)
                },
            },
        },
{
    let role_id: u128 = match web::require_one(csrf_ok, rid, "Role not found") {
        Ok(id) => id,
        Err(reply) => return Err(reply),
    };
    match parse_permissions_field(lines) {
        Err(fault) => Err(repeat_edit_form(site, session, target, role, form, fault)),
        Ok(permissions) => Ok(
            UpdateRoleRequest {
                role_id,
                name: clients::take_given(form.name.as_str()),
                description: clients::take_given(form.description.as_str()),
                permissions,
                scope_kind: access::parse_scope_kind(form.scope_kind.as_str()),
            },
        ),
    }
}

/// Answers after the engine tried to change a role; `role` is read again where
/// the form has to be shown again.
pub fn admin_role_edit_submit(
    site: &web::Site,
    session: &web::UiSession,
    target: &web::TargetRealm,
    role_id: u128,
    form: &RoleEditForm,
    updated: Result<(), web::EngineError>,
    role: Option<access::Role>,
) -> (r: web::Reply<RoleEditTemplate>)
    ensures
        match updated {
            Ok(_) => r.redirects(role_address(*target, role_id)),
            Err(e) => match e.kind {
                web::ErrorKind::RoleNotFound => r.not_found("Role not found"@),
                web::ErrorKind::DuplicateRoleName => repeats_edit(
                    r,
                    *site,
                    *session,
                    *target,
                    role,
                    *form,
                    "A role with that name already exists in this realm."@,
                ),
                _ => r is ServerError,
            },
        },
{
    match updated {
        Ok(_) => web::Reply::Redirect(role_url(target, role_id)),
        Err(e) => match e.kind {
            web::ErrorKind::RoleNotFound => web::Reply::missing("Role not found"),
            web::ErrorKind::DuplicateRoleName => repeat_edit_form(
                site,
                session,
                target,
                role,
                form,
                "A role with that name already exists in this realm.".to_owned(),
            ),
            _ => web::Reply::ServerError,
        },
    }
}

/// The edit form, submitted as it was shown, names the permissions and the
/// scope of the role, where each permission fills a line.
pub proof fn law_unchanged_role(role: access::Role)
    requires
        forall|k: int| 0 <= k < role.permissions@.len() ==> text::is_line(
            #[trigger] role.permissions@[k]@,
        ),
    ensures
        text::filled_lines(role_fields(role).permissions) == text::texts(role.permissions@),
        access::kind_of(role_fields(role).scope_kind) == role.scope_kind,
{
    let lines = text::texts(role.permissions@);
    assert forall|k: int| 0 <= k < lines.len() implies text::is_line(#[trigger] lines[k]) by {
        assert(lines[k] == role.permissions@[k]@);
    }
    text::law_lines_round_trip(lines);
    access::law_scope_kind_round_trip(role.scope_kind);
}

// ---------------------------------------------------------------------------
// Deletion
// ---------------------------------------------------------------------------

/// Reads which role to delete.
pub fn admin_role_delete_request(csrf_ok: bool, rid: &str) -> (r: Result<u128, web::Reply<()>>)
    ensures
        web::names_one(r, csrf_ok, rid@, "Role not found"@),
{
    web::require_one(csrf_ok, rid, "Role not found")
}

/// Answers after the engine tried to delete a role.
pub fn admin_role_delete(target: &web::TargetRealm, deleted: Result<(), web::EngineError>) -> (r:
    web::Reply<()>)
    ensures
        match deleted {
            Ok(_) => r.redirects("/ui/admin/realms/"@ + target.name@ + "/rbac/roles"@),
            Err(e) => if e.kind is RoleNotFound {
                r.not_found("Role not found"@)
            } else {
                r is ServerError
            },
        },
{
    match deleted {
        Ok(_) => {
            let url = "/ui/admin/realms/".to_owned().concat(target.name.as_str()).concat(
                "/rbac/roles",
            );
            web::Reply::Redirect(url)
        },
        Err(e) => match e.kind {
            web::ErrorKind::RoleNotFound => web::Reply::missing("Role not found"),
            _ => web::Reply::ServerError,
        },
    }
}

/// What is seen of a row is what it holds, each part under its own name.
pub proof fn law_rows_seen(a: RoleRow, b: RoleFields)
    ensures
        a@.id == a.id@,
        a@.name == a.name@,
        a@.scope == a.scope@,
        a@.permissions == text::texts(a.permissions@),
        a@.description == a.description@,
        b@.name == b.name@,
        b@.description == b.description@,
        b@.scope_kind == b.scope_kind@,
        b@.permissions == b.permissions@,
{
}

/// Where the page shows a form and an error: each part of what that says.
pub proof fn law_role_new_template_shows(
    page: RoleNewTemplate,
    site: web::Site,
    session: web::UiSession,
    realm_name: Seq<char>,
    form: RoleFieldsView,
    error: Option<Seq<char>>,
)
    requires
        page.shows(site, session, realm_name, form, error),
    ensures
        text::opt_text(page.error) == error,
        page.realm_name@ == realm_name,
        page.form@ == form,
        page.active_tab@ == "rbac_roles"@,
        page.chrome.is_admin_page(site, session, "rbac_roles"@),
        page.chrome.flash is None,
{
}

/// Where the page shows a form about a role, and an error: each part of what that
/// says.
pub proof fn law_role_edit_template_shows(
    page: RoleEditTemplate,
    site: web::Site,
    session: web::UiSession,
    realm_name: Seq<char>,
    role: access::Role,
    form: RoleFieldsView,
    error: Option<Seq<char>>,
)
    requires
        page.shows(site, session, realm_name, role, form, error),
    ensures
        page.role == role,
        text::opt_text(page.error) == error,
        page.realm_name@ == realm_name,
        page.form@ == form,
        page.active_tab@ == "rbac_roles"@,
        page.chrome.is_admin_page(site, session, "rbac_roles"@),
        page.chrome.flash is None,
{
}

/// Part by part: how a role is listed.
pub proof fn law_role_line(role: access::Role)
    ensures
        role_line(role).id == codec::hyphenated(role.id),
        role_line(role).name == role.name@,
        role_line(role).scope == role.scope_kind.wire(),
        role_line(role).permissions == order::sorted_set(text::texts(role.permissions@)),
        role_line(role).description == access::text_or_empty(role.description),
{
}

/// Part by part: the fields of the empty form.
pub proof fn law_blank_fields()
    ensures
        blank_fields().name.len() == 0,
        blank_fields().description.len() == 0,
        blank_fields().scope_kind == "realm"@,
        blank_fields().permissions.len() == 0,
{
}

/// Part by part: the form as it was submitted.
pub proof fn law_created_fields(form: RoleCreateForm)
    ensures
        created_fields(form).name == form.name@,
        created_fields(form).description == form.description@,
        created_fields(form).scope_kind == form.scope_kind@,
        created_fields(form).permissions == form.permissions@,
{
}

/// Part by part: the form that shows what a role is.
pub proof fn law_role_fields(role: access::Role)
    ensures
        role_fields(role).name == role.name@,
        role_fields(role).description == access::text_or_empty(role.description),
        role_fields(role).scope_kind == role.scope_kind.wire(),
        role_fields(role).permissions == text::joined(text::texts(role.permissions@), "\n"@),
{
}

/// Part by part: the form as it was submitted.
pub proof fn law_edited_fields(form: RoleEditForm)
    ensures
        edited_fields(form).name == form.name@,
        edited_fields(form).description == form.description@,
        edited_fields(form).scope_kind == form.scope_kind@,
        edited_fields(form).permissions == form.permissions@,
{
}

/// One for each, in order: how roles are listed.
pub proof fn law_role_lines(roles: Seq<access::Role>, i: int)
    ensures
        role_lines(roles).len() == roles.len(),
        0 <= i < roles.len() ==> role_lines(roles)[i] == role_line(roles[i]),
{
}

/// One for each, in order: the permissions of lines that all hold one.
pub proof fn law_accepted(lines: Seq<CheckedPermission>, i: int)
    ensures
        accepted(lines).len() == lines.len(),
        0 <= i < lines.len() ==> accepted(lines)[i] == permission_on(lines[i]),
{
}

/// The address of a role names its realm and its identifier.
pub proof fn law_role_address(target: web::TargetRealm, role_id: u128)
    ensures
        role_address(target, role_id) == "/ui/admin/realms/"@ + target.name@ + "/rbac/roles/"@
            + codec::hyphenated(role_id),
        role_address(target, role_id).skip(role_address(target, role_id).len() - 36)
            == codec::hyphenated(role_id),
{
    let a = role_address(target, role_id);
    assert(a.skip(a.len() - 36) =~= codec::hyphenated(role_id));
}

/// The fault that is told is that of the first line that was refused, with the
/// line and the reason; there is none exactly where every line was accepted.
pub proof fn law_first_fault(lines: Seq<CheckedPermission>)
    ensures
        first_fault(lines) is None <==> forall|k: int|
            0 <= k < lines.len() ==> (#[trigger] lines[k]).verdict is Ok,
        first_fault(lines) matches Some(fault) ==> exists|k: int|
            {
                &&& 0 <= k < lines.len()
                &&& (#[trigger] lines[k]).verdict matches Err(e)
                &&& fault == "Invalid permission '"@ + lines[k].line@ + "': "@ + e.text@
                &&& forall|j: int| 0 <= j < k ==> (#[trigger] lines[j]).verdict is Ok
            },
    decreases lines.len(),
{
    if lines.len() > 0 {
        if lines[0].verdict is Ok {
            let rest = lines.skip(1);
            law_first_fault(rest);
            assert forall|k: int| 0 <= k < rest.len() implies #[trigger] rest[k] == lines[k + 1] by {}
            if let Some(fault) = first_fault(rest) {
                let k = choose|k: int|
                    {
                        &&& 0 <= k < rest.len()
                        &&& (#[trigger] rest[k]).verdict matches Err(e)
                        &&& fault == "Invalid permission '"@ + rest[k].line@ + "': "@ + e.text@
                        &&& forall|j: int| 0 <= j < k ==> (#[trigger] rest[j]).verdict is Ok
                    };
                assert(lines[k + 1] == rest[k]);
                assert forall|j: int| 0 <= j < k + 1 implies (
                #[trigger] lines[j]).verdict is Ok by {
                    if j > 0 {
                        assert(rest[j - 1] == lines[j]);
                    }
                }
            } else {
                assert forall|k: int| 0 <= k < lines.len() implies (
                #[trigger] lines[k]).verdict is Ok by {
                    if k > 0 {
                        assert(rest[k - 1] == lines[k]);
                    }
                }
            }
        } else {
            assert(lines[0].verdict is Err);
        }
    }
}

/// Each accepted line gives the permission that it was read as.
pub proof fn law_permission_on(line: CheckedPermission)
    ensures
        line.verdict matches Ok(p) ==> permission_on(line) == p@,
        line.verdict is Err ==> permission_on(line).len() == 0,
{
}

/// A refused edit shows the form again with the error, and nothing where the role
/// is gone.
pub proof fn law_repeats_edit(
    r: web::Reply<RoleEditTemplate>,
    site: web::Site,
    session: web::UiSession,
    target: web::TargetRealm,
    role: Option<access::Role>,
    form: RoleEditForm,
    error: Seq<char>,
)
    requires
        repeats_edit(r, site, session, target, role, form, error),
    ensures
        role is None ==> r is ServerError,
        role matches Some(found) ==> (r matches web::Reply::Page(p) && p.role == found && (p.error
            matches Some(e) && e@ == error) && p.form.name@ == form.name@ && p.form.description@
            == form.description@ && p.form.scope_kind@ == form.scope_kind@ && p.form.permissions@
            == form.permissions@ && p.realm_name@ == target.name@),
{
}

} // verus!
