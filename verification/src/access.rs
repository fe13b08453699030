//! Roles, permissions and scopes, and the rows in which pages show them.

use crate::codec;
use crate::order;
use crate::text;
use vstd::prelude::*;
use vstd::string::*;

verus! {

// ---------------------------------------------------------------------------
// The model
// ---------------------------------------------------------------------------

/// Where a role may be assigned.
#[derive(Clone, Copy, PartialEq, Eq, Structural)]
pub enum RoleScopeKind {
    Realm,
    Organization,
    Any,
}

impl RoleScopeKind {
    /// The name of a kind.
    pub open spec fn name(self) -> Seq<char> {
        match self {
            RoleScopeKind::Realm => "Realm"@,
            RoleScopeKind::Organization => "Organization"@,
            RoleScopeKind::Any => "Any"@,
        }
    }

    /// The wire name of a kind.
    pub open spec fn wire(self) -> Seq<char> {
        match self {
            RoleScopeKind::Realm => "realm"@,
            RoleScopeKind::Organization => "organization"@,
            RoleScopeKind::Any => "any"@,
        }
    }

    /// The name of a kind.
    pub fn label(self) -> (r: String)
        ensures
            r@ == self.name(),
    {
        match self {
            RoleScopeKind::Realm => "Realm".to_owned(),
            RoleScopeKind::Organization => "Organization".to_owned(),
            RoleScopeKind::Any => "Any".to_owned(),
        }
    }

    /// The wire name of a kind.
    pub fn wire_name(self) -> (r: String)
        ensures
            r@ == self.wire(),
    {
        match self {
            RoleScopeKind::Realm => "realm".to_owned(),
            RoleScopeKind::Organization => "organization".to_owned(),
            RoleScopeKind::Any => "any".to_owned(),
        }
    }
}

/// The kind that a form field names; what it does not name is the realm.
pub open spec fn kind_of(s: Seq<char>) -> RoleScopeKind {
    if s == "organization"@ {
        RoleScopeKind::Organization
    } else if s == "any"@ {
        RoleScopeKind::Any
    } else {
        RoleScopeKind::Realm
    }
}

/// Reads the scope kind of a role from a form field.
pub fn parse_scope_kind(s: &str) -> (r: RoleScopeKind)
    ensures
        r == kind_of(s@),
{
    if text::same(s, "organization") {
        RoleScopeKind::Organization
    } else if text::same(s, "any") {
        RoleScopeKind::Any
    } else {
        RoleScopeKind::Realm
    }
}

/// A scope kind is read back from its wire name.
pub proof fn law_scope_kind_round_trip(kind: RoleScopeKind)
    ensures
        kind_of(kind.wire()) == kind,
{
    reveal_strlit("organization");
    reveal_strlit("any");
    reveal_strlit("realm");
    assert("any"@.len() != "organization"@.len());
    assert("realm"@.len() != "organization"@.len());
    assert("realm"@.len() != "any"@.len());
}

/// Where an assignment or a grant holds.
#[derive(Clone, Copy, PartialEq, Eq, Structural)]
pub enum Scope {
    /// In the whole realm.
    Realm,
    /// In one organization.
    Org(u128),
}

/// A role.
pub struct Role {
    pub id: u128,
    pub name: String,
    pub description: Option<String>,
    pub scope_kind: RoleScopeKind,
    pub permissions: Vec<String>,
}

/// An assignment of a role to a user.
#[derive(Clone, Copy, PartialEq, Eq, Structural)]
pub struct Assignment {
    pub id: u128,
    pub role_id: u128,
    pub scope: Scope,
}

/// An assignment with what the engines know of its role and organization.
pub struct HeldRole {
    pub assignment: Assignment,
    pub role: Option<Role>,
    pub org_name: Option<String>,
}

/// A permission granted to a user directly.
pub struct Grant {
    pub permission: String,
    pub scope: Scope,
    /// The name of the organization of the scope, where it is known.
    pub org_name: Option<String>,
}

/// An organization.
pub struct OrgSummary {
    pub id: u128,
    pub name: String,
}

// ---------------------------------------------------------------------------
// Scopes in words
// ---------------------------------------------------------------------------

/// How a scope is shown.
pub open spec fn scope_label(scope: Scope, org_name: Option<Seq<char>>) -> Seq<char> {
    match scope {
        Scope::Realm => "Realm-wide"@,
        Scope::Org(id) => "Org: "@ + match org_name {
            Some(name) => name,
            None => codec::hyphenated(id),
        },
    }
}

/// How a scope is sent: `realm` or `org:` and the organization's UUID.
pub open spec fn scope_wire(scope: Scope) -> Seq<char> {
    match scope {
        Scope::Realm => "realm"@,
        Scope::Org(id) => "org:"@ + codec::hyphenated(id),
    }
}

/// Shows a scope.
pub fn show_scope(scope: Scope, org_name: &Option<String>) -> (r: String)
    ensures
        r@ == scope_label(scope, text::opt_text(*org_name)),
{
    match scope {
        Scope::Realm => "Realm-wide".to_owned(),
        Scope::Org(id) => {
            let name = match org_name {
                Some(name) => name.clone(),
                None => codec::uuid_text(id),
            };
            "Org: ".to_owned().concat(name.as_str())
        },
    }
}

/// Writes a scope as it is sent.
pub fn send_scope(scope: Scope) -> (r: String)
    ensures
        r@ == scope_wire(scope),
{
    match scope {
        Scope::Realm => "realm".to_owned(),
        Scope::Org(id) => "org:".to_owned().concat(codec::uuid_text(id).as_str()),
    }
}

/// What a scope text denotes, given the UUID that the rest of it denotes
/// behind `org:`.
pub open spec fn scope_meant(
    s: Seq<char>,
    id_of: spec_fn(Seq<char>) -> Option<u128>,
) -> Result<Scope, Seq<char>> {
    if s == "realm"@ {
        Ok(Scope::Realm)
    } else if text::has_prefix(s, "org:"@) {
        let rest = s.skip("org:"@.len() as int);
        match id_of(rest) {
            Some(id) => Ok(Scope::Org(id)),
            None => Err("invalid org UUID: "@ + rest),
        }
    } else {
        Err("unrecognised scope: "@ + s)
    }
}

/// The reading of UUIDs.
pub open spec fn uuid_reading() -> spec_fn(Seq<char>) -> Option<u128> {
    |s: Seq<char>| codec::uuid_of(s)
}

/// The scope that a scope text holds besides its UUID.
pub enum ScopeText {
    /// The whole realm.
    Realm,
    /// An organization, by a text that should denote a UUID.
    Org(String),
    /// Neither.
    Unknown,
}

/// Tells the forms of a scope text apart.
pub fn split_scope(scope: &str) -> (r: ScopeText)
    ensures
        match r {
            ScopeText::Realm => scope@ == "realm"@,
            ScopeText::Org(rest) => scope@ != "realm"@ && text::has_prefix(scope@, "org:"@)
                && rest@ == scope@.skip("org:"@.len() as int),
            ScopeText::Unknown => scope@ != "realm"@ && !text::has_prefix(scope@, "org:"@),
        },
{
    if text::same(scope, "realm") {
        return ScopeText::Realm;
    }
    match text::strip_prefix(scope, "org:") {
        Some(rest) => ScopeText::Org(rest),
        None => ScopeText::Unknown,
    }
}

/// Parses a scope text ("realm" or "org:{uuid}").
pub fn parse_rbac_scope(scope: &str) -> (r: Result<Scope, String>)
    ensures
        match r {
            Ok(s) => scope_meant(scope@, uuid_reading()) == Ok::<Scope, Seq<char>>(s),
            Err(e) => scope_meant(scope@, uuid_reading()) == Err::<Scope, Seq<char>>(e@),
        },
        forall|s: Scope| scope@ == #[trigger] scope_wire(s) ==> r == Ok::<Scope, String>(s),
{
    proof {
        assert forall|s: Scope| scope@ == #[trigger] scope_wire(s) implies match s {
            Scope::Realm => scope@ == "realm"@,
            Scope::Org(id) => scope@ != "realm"@ && text::has_prefix(scope@, "org:"@)
                && scope@.skip("org:"@.len() as int) == codec::hyphenated(id),
        } by {
            reveal_strlit("realm");
            reveal_strlit("org:");
            if let Scope::Org(id) = s {
                assert(scope@[0] == 'o');
                assert("realm"@[0] == 'r');
                assert(scope@.subrange(0, 4) =~= "org:"@);
                assert(scope@.skip(4) =~= codec::hyphenated(id));
            }
        }
    }
    match split_scope(scope) {
        ScopeText::Realm => Ok(Scope::Realm),
        ScopeText::Org(rest) => match codec::parse_uuid(rest.as_str()) {
            Some(id) => Ok(Scope::Org(id)),
            None => Err("invalid org UUID: ".to_owned().concat(rest.as_str())),
        },
        ScopeText::Unknown => Err("unrecognised scope: ".to_owned().concat(scope)),
    }
}

// ---------------------------------------------------------------------------
// Role assignments of a user
// ---------------------------------------------------------------------------

/// A role assignment on the user page.
pub struct UserRoleAssignmentRow {
    /// Assignment UUID.
    pub assignment_id: String,
    /// Role UUID.
    pub role_id: String,
    /// Role name.
    pub role_name: String,
    /// The scope as it is shown.
    pub scope_label: String,
    /// The scope as it is sent.
    pub scope_raw: String,
    /// The permissions that the role grants, sorted.
    pub permissions: Vec<String>,
}

/// A role assignment row without its representation.
#[verifier::ext_equal]
pub struct AssignmentRow {
    pub assignment_id: Seq<char>,
    pub role_id: Seq<char>,
    pub role_name: Seq<char>,
    pub scope_label: Seq<char>,
    pub scope_raw: Seq<char>,
    pub permissions: Seq<Seq<char>>,
}

impl View for UserRoleAssignmentRow {
    type V = AssignmentRow;

    open spec fn view(&self) -> AssignmentRow {
        AssignmentRow {
            assignment_id: self.assignment_id@,
            role_id: self.role_id@,
            role_name: self.role_name@,
            scope_label: self.scope_label@,
            scope_raw: self.scope_raw@,
            permissions: text::texts(self.permissions@),
        }
    }
}

/// The name under which a held role is shown: that of the role, or its UUID
/// where the role is not known.
pub open spec fn held_name(h: HeldRole) -> Seq<char> {
    match h.role {
        Some(role) => role.name@,
        None => codec::hyphenated(h.assignment.role_id),
    }
}

/// The permissions that a held role grants.
pub open spec fn held_permissions(h: HeldRole) -> Seq<Seq<char>> {
    match h.role {
        Some(role) => text::texts(role.permissions@),
        None => Seq::empty(),
    }
}

/// The row of a held role.
pub open spec fn assignment_row(h: HeldRole) -> AssignmentRow {
    AssignmentRow {
        assignment_id: codec::hyphenated(h.assignment.id),
        role_id: codec::hyphenated(h.assignment.role_id),
        role_name: held_name(h),
        scope_label: scope_label(h.assignment.scope, text::opt_text(h.org_name)),
        scope_raw: scope_wire(h.assignment.scope),
        permissions: order::sorted(held_permissions(h), order::text_order()),
    }
}

/// Rows by role name, then by scope.
pub open spec fn assignment_order() -> spec_fn(AssignmentRow, AssignmentRow) -> bool {
    |a: AssignmentRow, b: AssignmentRow|
        if a.role_name != b.role_name {
            text::text_le(a.role_name, b.role_name)
        } else {
            text::text_le(a.scope_label, b.scope_label)
        }
}

/// The rows of held roles, in order.
pub open spec fn assignment_rows(held: Seq<HeldRole>) -> Seq<AssignmentRow> {
    order::sorted(held.map_values(|h: HeldRole| assignment_row(h)), assignment_order())
}

/// Role assignment rows by role name, then by scope.
pub struct ByRoleThenScope;

impl order::Order<UserRoleAssignmentRow> for ByRoleThenScope {
    open spec fn may_precede(a: UserRoleAssignmentRow, b: UserRoleAssignmentRow) -> bool {
        assignment_order()(a@, b@)
    }

    fn precedes(a: &UserRoleAssignmentRow, b: &UserRoleAssignmentRow) -> (r: bool) {
        if a.role_name != b.role_name {
            text::le(a.role_name.as_str(), b.role_name.as_str())
        } else {
            text::le(a.scope_label.as_str(), b.scope_label.as_str())
        }
    }
}

/// The name and the permissions under which a held role is shown.
pub(crate) fn name_and_permissions(h: &HeldRole) -> (r: (String, Vec<String>))
    ensures
        r.0@ == held_name(*h),
        text::texts(r.1@) == held_permissions(*h),
{
    match &h.role {
        Some(role) => (role.name.clone(), text::clone_all(&role.permissions)),
        None => {
            let none: Vec<String> = Vec::new();
            proof {
                assert(text::texts(none@) =~= Seq::<Seq<char>>::empty());
            }
            (codec::uuid_text(h.assignment.role_id), none)
        },
    }
}

/// Builds the rows of a user's role assignments.
pub fn build_role_assignment_rows(held: &Vec<HeldRole>) -> (rows: Vec<UserRoleAssignmentRow>)
    ensures
        text::views(rows@) == assignment_rows(held@),
{
    let mut rows: Vec<UserRoleAssignmentRow> = Vec::new();
    let mut i: usize = 0;
    while i < held.len()
        invariant
            i <= held.len(),
            rows.len() == i,
            forall|j: int| 0 <= j < i ==> (#[trigger] rows@[j])@ == assignment_row(held@[j]),
        decreases held.len() - i,
    {
        let h = &held[i];
        let (role_name, permissions) = name_and_permissions(h);
        rows.push(
            UserRoleAssignmentRow {
                assignment_id: codec::uuid_text(h.assignment.id),
                role_id: codec::uuid_text(h.assignment.role_id),
                role_name,
                scope_label: show_scope(h.assignment.scope, &h.org_name),
                scope_raw: send_scope(h.assignment.scope),
                permissions: order::sort_strings(permissions),
            },
        );
        i += 1;
    }
    let ghost built = rows@;
    let sorted = order::sort::<UserRoleAssignmentRow, ByRoleThenScope>(rows);
    proof {
        let f = |r: UserRoleAssignmentRow| r@;
        order::lemma_sorted_map(
            built,
            order::order_of::<UserRoleAssignmentRow, ByRoleThenScope>(),
            f,
            assignment_order(),
        );
        assert(built.map_values(f) =~= held@.map_values(|h: HeldRole| assignment_row(h)));
        assert(text::views(sorted@) =~= sorted@.map_values(f));
    }
    sorted
}

/// Permissions that a user has through one role assignment.
pub struct RoleInheritedGroup {
    /// Role name.
    pub role_name: String,
    /// The scope as it is shown.
    pub scope_label: String,
    /// The permissions, sorted.
    pub permissions: Vec<String>,
}

/// An inherited group without its representation.
#[verifier::ext_equal]
pub struct InheritedGroup {
    pub role_name: Seq<char>,
    pub scope_label: Seq<char>,
    pub permissions: Seq<Seq<char>>,
}

impl View for RoleInheritedGroup {
    type V = InheritedGroup;

    open spec fn view(&self) -> InheritedGroup {
        InheritedGroup {
            role_name: self.role_name@,
            scope_label: self.scope_label@,
            permissions: text::texts(self.permissions@),
        }
    }
}

/// One group for each row that grants a permission.
pub open spec fn inherited_groups(rows: Seq<AssignmentRow>) -> Seq<InheritedGroup>
    decreases rows.len(),
{
    if rows.len() == 0 {
        Seq::empty()
    } else {
        let before = inherited_groups(rows.drop_last());
        let r = rows.last();
        if r.permissions.len() == 0 {
            before
        } else {
            before.push(
                InheritedGroup {
                    role_name: r.role_name,
                    scope_label: r.scope_label,
                    permissions: r.permissions,
                },
            )
        }
    }
}

/// Builds the groups of inherited permissions; roles that grant nothing have
/// none.
pub fn build_role_inherited_groups(rows: &Vec<UserRoleAssignmentRow>) -> (r: Vec<
    RoleInheritedGroup,
>)
    ensures
        text::views(r@) == inherited_groups(text::views(rows@)),
{
    broadcast use text::lemma_views_push;

    let ghost all = text::views(rows@);
    let mut groups: Vec<RoleInheritedGroup> = Vec::new();
    let mut i: usize = 0;
    proof {
        assert(text::views(groups@) =~= inherited_groups(all.take(0)));
    }
    while i < rows.len()
        invariant
            all == text::views(rows@),
            i <= rows.len(),
            text::views(groups@) == inherited_groups(all.take(i as int)),
        decreases rows.len() - i,
    {
        let row = &rows[i];
        proof {
            assert(all.take(i + 1).drop_last() =~= all.take(i as int));
            assert(all.take(i + 1).last() == row@);
            assert(row@.permissions.len() == row.permissions@.len());
        }
        if row.permissions.len() > 0 {
            groups.push(
                RoleInheritedGroup {
                    role_name: row.role_name.clone(),
                    scope_label: row.scope_label.clone(),
                    permissions: text::clone_all(&row.permissions),
                },
            );
        }
        i += 1;
    }
    proof {
        assert(all.take(rows@.len() as int) =~= all);
    }
    groups
}

// ---------------------------------------------------------------------------
// Direct grants of a user
// ---------------------------------------------------------------------------

/// A permission granted directly, on the user page.
pub struct UserPermissionGrantRow {
    /// The permission.
    pub permission: String,
    /// The scope as it is shown.
    pub scope_label: String,
    /// The scope as it is sent.
    pub scope_raw: String,
}

/// A grant row without its representation.
#[verifier::ext_equal]
pub struct GrantRow {
    pub permission: Seq<char>,
    pub scope_label: Seq<char>,
    pub scope_raw: Seq<char>,
}

impl View for UserPermissionGrantRow {
    type V = GrantRow;

    open spec fn view(&self) -> GrantRow {
        GrantRow {
            permission: self.permission@,
            scope_label: self.scope_label@,
            scope_raw: self.scope_raw@,
        }
    }
}

/// The row of a grant.
pub open spec fn grant_row(g: Grant) -> GrantRow {
    GrantRow {
        permission: g.permission@,
        scope_label: scope_label(g.scope, text::opt_text(g.org_name)),
        scope_raw: scope_wire(g.scope),
    }
}

/// The rows of grants.
pub open spec fn grant_rows(grants: Seq<Grant>) -> Seq<GrantRow> {
    Seq::new(grants.len(), |i: int| grant_row(grants[i]))
}

/// Builds the rows of a user's direct grants.
pub fn build_permission_grant_rows(grants: &Vec<Grant>) -> (rows: Vec<UserPermissionGrantRow>)
    ensures
        text::views(rows@) == grant_rows(grants@),
{
    let mut rows: Vec<UserPermissionGrantRow> = Vec::new();
    let mut i: usize = 0;
    while i < grants.len()
        invariant
            i <= grants.len(),
            rows.len() == i,
            forall|j: int| 0 <= j < i ==> (#[trigger] rows@[j])@ == grant_row(grants@[j]),
        decreases grants.len() - i,
    {
        let g = &grants[i];
        rows.push(
            UserPermissionGrantRow {
                permission: g.permission.clone(),
                scope_label: show_scope(g.scope, &g.org_name),
                scope_raw: send_scope(g.scope),
            },
        );
        i += 1;
    }
    proof {
        assert(text::views(rows@) =~= grant_rows(grants@));
    }
    rows
}

// ---------------------------------------------------------------------------
// Permissions of roles
// ---------------------------------------------------------------------------

/// Whether a role means something in an organization.
pub open spec fn fits_org(role: Role) -> bool {
    role.scope_kind != RoleScopeKind::Realm
}

/// The permissions of roles, one after the other.
pub open spec fn all_permissions(roles: Seq<Role>) -> Seq<Seq<char>>
    decreases roles.len(),
{
    if roles.len() == 0 {
        Seq::empty()
    } else {
        all_permissions(roles.drop_last()) + text::texts(roles.last().permissions@)
    }
}

/// The roles that mean something in an organization.
pub open spec fn org_roles(roles: Seq<Role>) -> Seq<Role>
    decreases roles.len(),
{
    if roles.len() == 0 {
        roles
    } else if fits_org(roles.last()) {
        org_roles(roles.drop_last()).push(roles.last())
    } else {
        org_roles(roles.drop_last())
    }
}

/// Appends copies of strings.
pub(crate) fn extend(out: &mut Vec<String>, more: &Vec<String>)
    ensures
        text::texts(final(out)@) == text::texts(old(out)@) + text::texts(more@),
{
    let mut i: usize = 0;
    proof {
        assert(text::texts(out@) =~= text::texts(old(out)@) + text::texts(more@).take(0));
    }
    while i < more.len()
        invariant
            i <= more.len(),
            text::texts(out@) == text::texts(old(out)@) + text::texts(more@).take(i as int),
        decreases more.len() - i,
    {
        let ghost before = out@;
        out.push(more[i].clone());
        proof {
            text::lemma_texts_push(before, more@[i as int]);
            assert(out@ == before.push(more@[i as int]));
            assert(text::texts(more@).take(i + 1) =~= text::texts(more@).take(i as int).push(
                more@[i as int]@,
            ));
            assert(text::texts(out@) =~= text::texts(old(out)@) + text::texts(more@).take(i + 1));
        }
        i += 1;
    }
    proof {
        assert(text::texts(more@).take(more@.len() as int) =~= text::texts(more@));
    }
}

/// Collects the permissions of every role of a realm, each once, sorted.
pub fn collect_realm_permissions(roles: &Vec<Role>) -> (r: Vec<String>)
    ensures
        text::texts(r@) == order::sorted_set(all_permissions(roles@)),
{
    let mut all: Vec<String> = Vec::new();
    let mut i: usize = 0;
    proof {
        assert(text::texts(all@) =~= all_permissions(roles@.take(0)));
    }
    while i < roles.len()
        invariant
            i <= roles.len(),
            text::texts(all@) == all_permissions(roles@.take(i as int)),
        decreases roles.len() - i,
    {
        proof {
            assert(roles@.take(i + 1).drop_last() =~= roles@.take(i as int));
        }
        extend(&mut all, &roles[i].permissions);
        i += 1;
    }
    proof {
        assert(roles@.take(roles@.len() as int) =~= roles@);
    }
    order::sort_dedup(all)
}

/// Collects the permissions of the roles that mean something in an
/// organization, each once, sorted.
pub fn collect_org_permissions(roles: &Vec<Role>) -> (r: Vec<String>)
    ensures
        text::texts(r@) == order::sorted_set(all_permissions(org_roles(roles@))),
{
    let mut all: Vec<String> = Vec::new();
    let mut i: usize = 0;
    proof {
        assert(text::texts(all@) =~= all_permissions(org_roles(roles@.take(0))));
    }
    while i < roles.len()
        invariant
            i <= roles.len(),
            text::texts(all@) == all_permissions(org_roles(roles@.take(i as int))),
        decreases roles.len() - i,
    {
        let ghost before = org_roles(roles@.take(i as int));
        proof {
            assert(roles@.take(i + 1).drop_last() =~= roles@.take(i as int));
            assert(before.push(roles@[i as int]).drop_last() =~= before);
        }
        if roles[i].scope_kind != RoleScopeKind::Realm {
            extend(&mut all, &roles[i].permissions);
        }
        i += 1;
    }
    proof {
        assert(roles@.take(roles@.len() as int) =~= roles@);
    }
    order::sort_dedup(all)
}

/// A permission is collected exactly where some role grants it.
pub proof fn law_collected_permissions(roles: Seq<Role>, p: Seq<char>)
    ensures
        order::ascending(order::sorted_set(all_permissions(roles))),
        order::sorted_set(all_permissions(roles)).contains(p) <==> exists|i: int|
            0 <= i < roles.len() && text::texts((#[trigger] roles[i]).permissions@).contains(p),
{
    order::law_sorted_set(all_permissions(roles));
    assert(order::sorted_set(all_permissions(roles)).contains(p) <==> all_permissions(
        roles,
    ).contains(p));
    lemma_all_permissions(roles, p);
}

proof fn lemma_all_permissions(roles: Seq<Role>, p: Seq<char>)
    ensures
        all_permissions(roles).contains(p) <==> exists|i: int|
            0 <= i < roles.len() && text::texts((#[trigger] roles[i]).permissions@).contains(p),
    decreases roles.len(),
{
    if roles.len() > 0 {
        let rest = roles.drop_last();
        lemma_all_permissions(rest, p);
        let a = all_permissions(rest);
        let b = text::texts(roles.last().permissions@);
        let c = all_permissions(roles);
        if c.contains(p) {
            let k = choose|k: int| 0 <= k < c.len() && c[k] == p;
            if k < a.len() {
                assert(a[k] == p);
                let i = choose|i: int|
                    0 <= i < rest.len() && text::texts((#[trigger] rest[i]).permissions@).contains(
                        p,
                    );
                assert(roles[i] == rest[i]);
            } else {
                assert(b[k - a.len()] == p);
                assert(text::texts(roles[roles.len() - 1].permissions@).contains(p));
            }
        }
        if exists|i: int|
            0 <= i < roles.len() && text::texts((#[trigger] roles[i]).permissions@).contains(p) {
            let i = choose|i: int|
                0 <= i < roles.len() && text::texts((#[trigger] roles[i]).permissions@).contains(p);
            if i < rest.len() {
                assert(rest[i] == roles[i]);
                assert(a.contains(p));
                let k = choose|k: int| 0 <= k < a.len() && a[k] == p;
                assert(c[k] == p);
            } else {
                let k = choose|k: int| 0 <= k < b.len() && b[k] == p;
                assert(c[a.len() + k] == p);
            }
        }
    }
}

// ---------------------------------------------------------------------------
// What can be assigned
// ---------------------------------------------------------------------------

/// A role that can be assigned.
pub struct AvailableRole {
    /// Role UUID.
    pub id: String,
    /// Role name.
    pub name: String,
    /// What the role is for.
    pub description: String,
    /// Where it may be assigned: "Realm", "Organization" or "Any".
    pub scope_kind: String,
    /// The permissions that it grants, sorted.
    pub permissions: Vec<String>,
}

/// An available role without its representation.
#[verifier::ext_equal]
pub struct RoleChoice {
    pub id: Seq<char>,
    pub name: Seq<char>,
    pub description: Seq<char>,
    pub scope_kind: Seq<char>,
    pub permissions: Seq<Seq<char>>,
}

impl View for AvailableRole {
    type V = RoleChoice;

    open spec fn view(&self) -> RoleChoice {
        RoleChoice {
            id: self.id@,
            name: self.name@,
            description: self.description@,
            scope_kind: self.scope_kind@,
            permissions: text::texts(self.permissions@),
        }
    }
}

/// The text of an optional string, empty where there is none.
pub open spec fn text_or_empty(o: Option<String>) -> Seq<char> {
    match o {
        Some(s) => s@,
        None => Seq::empty(),
    }
}

/// The choice that a role makes.
pub open spec fn role_choice(role: Role) -> RoleChoice {
    RoleChoice {
        id: codec::hyphenated(role.id),
        name: role.name@,
        description: text_or_empty(role.description),
        scope_kind: role.scope_kind.name(),
        permissions: order::sorted(text::texts(role.permissions@), order::text_order()),
    }
}

/// The choices that roles make.
pub open spec fn role_choices(roles: Seq<Role>) -> Seq<RoleChoice> {
    Seq::new(roles.len(), |i: int| role_choice(roles[i]))
}

/// A copy of an optional string, empty where there is none.
pub fn or_empty(o: &Option<String>) -> (r: String)
    ensures
        r@ == text_or_empty(*o),
{
    match o {
        Some(s) => s.clone(),
        None => String::new(),
    }
}

fn available_role(role: &Role) -> (r: AvailableRole)
    ensures
        r@ == role_choice(*role),
{
    AvailableRole {
        id: codec::uuid_text(role.id),
        name: role.name.clone(),
        description: or_empty(&role.description),
        scope_kind: role.scope_kind.label(),
        permissions: order::sort_strings(text::clone_all(&role.permissions)),
    }
}

/// The number of roles on a page where all of them are read.
pub const ROLES_PAGE: usize = 500;

/// Builds the choices among all roles of a realm.
pub fn build_realm_available_roles(roles: &Vec<Role>) -> (r: Vec<AvailableRole>)
    ensures
        text::views(r@) == role_choices(roles@),
{
    let mut out: Vec<AvailableRole> = Vec::new();
    let mut i: usize = 0;
    while i < roles.len()
        invariant
            i <= roles.len(),
            out.len() == i,
            forall|j: int| 0 <= j < i ==> (#[trigger] out@[j])@ == role_choice(roles@[j]),
        decreases roles.len() - i,
    {
        out.push(available_role(&roles[i]));
        i += 1;
    }
    proof {
        assert(text::views(out@) =~= role_choices(roles@));
    }
    out
}

/// Builds the choices among the roles that mean something in an organization.
pub fn build_org_available_roles(roles: &Vec<Role>) -> (r: Vec<AvailableRole>)
    ensures
        text::views(r@) == role_choices(org_roles(roles@)),
{
    broadcast use text::lemma_views_push;

    let mut out: Vec<AvailableRole> = Vec::new();
    let mut i: usize = 0;
    proof {
        assert(text::views(out@) =~= role_choices(org_roles(roles@.take(0))));
    }
    while i < roles.len()
        invariant
            i <= roles.len(),
            text::views(out@) == role_choices(org_roles(roles@.take(i as int))),
        decreases roles.len() - i,
    {
        let ghost before = org_roles(roles@.take(i as int));
        proof {
            assert(roles@.take(i + 1).drop_last() =~= roles@.take(i as int));
            assert(role_choices(before.push(roles@[i as int])) =~= role_choices(before).push(
                role_choice(roles@[i as int]),
            ));
        }
        if roles[i].scope_kind != RoleScopeKind::Realm {
            out.push(available_role(&roles[i]));
        }
        i += 1;
    }
    proof {
        assert(roles@.take(roles@.len() as int) =~= roles@);
    }
    out
}

/// An organization that can be picked as a scope.
pub struct AvailableOrg {
    /// Organization UUID.
    pub id: String,
    /// Organization name.
    pub name: String,
}

impl View for AvailableOrg {
    type V = (Seq<char>, Seq<char>);

    open spec fn view(&self) -> (Seq<char>, Seq<char>) {
        (self.id@, self.name@)
    }
}

/// The choices that organizations make: UUID and name.
pub open spec fn org_choices(orgs: Seq<OrgSummary>) -> Seq<(Seq<char>, Seq<char>)> {
    Seq::new(orgs.len(), |i: int| (codec::hyphenated(orgs[i].id), orgs[i].name@))
}

/// The number of organizations on a page where all of them are read.
pub const ORGS_PAGE: usize = 200;

/// Builds the choices among the organizations of a realm.
pub fn build_available_orgs(orgs: &Vec<OrgSummary>) -> (r: Vec<AvailableOrg>)
    ensures
        text::views(r@) == org_choices(orgs@),
{
    let mut out: Vec<AvailableOrg> = Vec::new();
    let mut i: usize = 0;
    while i < orgs.len()
        invariant
            i <= orgs.len(),
            out.len() == i,
            forall|j: int|
                0 <= j < i ==> (#[trigger] out@[j])@ == (
                    codec::hyphenated(orgs@[j].id),
                    orgs@[j].name@,
                ),
        decreases orgs.len() - i,
    {
        out.push(AvailableOrg { id: codec::uuid_text(orgs[i].id), name: orgs[i].name.clone() });
        i += 1;
    }
    proof {
        assert(text::views(out@) =~= org_choices(orgs@));
    }
    out
}

// ---------------------------------------------------------------------------
// What a user can still be granted
// ---------------------------------------------------------------------------

/// The permissions named by grant rows.
pub open spec fn granted(rows: Seq<GrantRow>) -> Seq<Seq<char>> {
    Seq::new(rows.len(), |i: int| rows[i].permission)
}

/// The permissions that some held role grants.
pub open spec fn role_grants(held: Seq<HeldRole>) -> Seq<Seq<char>>
    decreases held.len(),
{
    if held.len() == 0 {
        Seq::empty()
    } else {
        role_grants(held.drop_last()) + held_permissions(held.last())
    }
}

/// What a concatenation holds.
proof fn lemma_in_sum(a: Seq<Seq<char>>, b: Seq<Seq<char>>, p: Seq<char>)
    ensures
        (a + b).contains(p) <==> a.contains(p) || b.contains(p),
{
    let c = a + b;
    if c.contains(p) {
        let k = choose|k: int| 0 <= k < c.len() && c[k] == p;
        if k < a.len() {
            assert(a[k] == p);
        } else {
            assert(b[k - a.len()] == p);
        }
    }
    if a.contains(p) {
        let k = choose|k: int| 0 <= k < a.len() && a[k] == p;
        assert(c[k] == p);
    }
    if b.contains(p) {
        let k = choose|k: int| 0 <= k < b.len() && b[k] == p;
        assert(c[a.len() + k] == p);
    }
}

proof fn lemma_role_grants(held: Seq<HeldRole>, p: Seq<char>)
    ensures
        role_grants(held).contains(p) <==> exists|i: int|
            0 <= i < held.len() && held_permissions(#[trigger] held[i]).contains(p),
    decreases held.len(),
{
    if held.len() > 0 {
        let rest = held.drop_last();
        lemma_role_grants(rest, p);
        lemma_in_sum(role_grants(rest), held_permissions(held.last()), p);
        assert(held.last() == held[held.len() - 1]);
        assert forall|i: int| 0 <= i < rest.len() implies #[trigger] rest[i] == held[i] by {}
        if exists|i: int| 0 <= i < rest.len() && held_permissions(#[trigger] rest[i]).contains(p) {
            let i = choose|i: int|
                0 <= i < rest.len() && held_permissions(#[trigger] rest[i]).contains(p);
            assert(held_permissions(held[i]).contains(p));
        }
        if exists|i: int| 0 <= i < held.len() && held_permissions(#[trigger] held[i]).contains(p) {
            let i = choose|i: int|
                0 <= i < held.len() && held_permissions(#[trigger] held[i]).contains(p);
            if i < rest.len() {
                assert(held_permissions(rest[i]).contains(p));
            }
        }
    }
}

/// The permissions that a user has through roles: what a held role grants, and
/// what is effective without being granted directly.
pub open spec fn inherited(
    held: Seq<HeldRole>,
    effective: Seq<Seq<char>>,
    direct: Seq<GrantRow>,
) -> Seq<Seq<char>> {
    order::minus(effective, granted(direct)) + role_grants(held)
}

/// The permissions of a realm that a user does not have through roles.
pub open spec fn grantable(
    realm_permissions: Seq<Seq<char>>,
    held: Seq<HeldRole>,
    effective: Seq<Seq<char>>,
    direct: Seq<GrantRow>,
) -> Seq<Seq<char>> {
    order::minus(realm_permissions, inherited(held, effective, direct))
}

fn push_role_grants(held: &Vec<HeldRole>, out: &mut Vec<String>)
    ensures
        text::texts(final(out)@) == text::texts(old(out)@) + role_grants(held@),
{
    broadcast use text::lemma_texts_push;

    let ghost start = text::texts(out@);
    let mut i: usize = 0;
    proof {
        assert(text::texts(out@) =~= start + role_grants(held@.take(0)));
    }
    while i < held.len()
        invariant
            i <= held.len(),
            text::texts(out@) == start + role_grants(held@.take(i as int)),
        decreases held.len() - i,
    {
        let ghost before = text::texts(out@);
        let ghost grants = held_permissions(held@[i as int]);
        proof {
            assert(held@.take(i + 1).drop_last() =~= held@.take(i as int));
            assert(before =~= before + grants.take(0));
        }
        if let Some(role) = &held[i].role {
            let mut k: usize = 0;
            while k < role.permissions.len()
                invariant
                    k <= role.permissions.len(),
                    grants == text::texts(role.permissions@),
                    text::texts(out@) == before + grants.take(k as int),
                decreases role.permissions.len() - k,
            {
                out.push(role.permissions[k].clone());
                proof {
                    assert(before + grants.take(k + 1) =~= (before + grants.take(k as int)).push(
                        grants[k as int],
                    ));
                }
                k += 1;
            }
        }
        proof {
            assert(grants.take(grants.len() as int) =~= grants);
            assert(text::texts(out@) =~= before + grants);
            assert(start + role_grants(held@.take(i as int)) + grants =~= start + (role_grants(
                held@.take(i as int),
            ) + grants));
        }
        i += 1;
    }
    proof {
        assert(held@.take(held@.len() as int) =~= held@);
    }
}

/// Lists the permissions that a user does not have through roles.
pub fn grantable_permissions(
    roles: &Vec<Role>,
    held: &Vec<HeldRole>,
    effective: &Vec<String>,
    direct: &Vec<UserPermissionGrantRow>,
) -> (r: Vec<String>)
    ensures
        text::texts(r@) == grantable(
            order::sorted_set(all_permissions(roles@)),
            held@,
            text::texts(effective@),
            text::views(direct@),
        ),
{
    let mut names: Vec<String> = Vec::new();
    let mut i: usize = 0;
    while i < direct.len()
        invariant
            i <= direct.len(),
            names.len() == i,
            forall|j: int| 0 <= j < i ==> (#[trigger] names@[j])@ == direct@[j].permission@,
        decreases direct.len() - i,
    {
        names.push(direct[i].permission.clone());
        i += 1;
    }
    proof {
        assert(text::texts(names@) =~= granted(text::views(direct@)));
    }
    let mut through_roles = order::subtract(effective, &names);
    push_role_grants(held, &mut through_roles);
    let all = collect_realm_permissions(roles);
    order::subtract(&all, &through_roles)
}

/// A permission can still be granted exactly where a role of the realm defines
/// it, no held role grants it, and it is not effective otherwise than by a
/// direct grant.
pub proof fn law_grantable(
    roles: Seq<Role>,
    held: Seq<HeldRole>,
    effective: Seq<Seq<char>>,
    direct: Seq<GrantRow>,
    p: Seq<char>,
)
    ensures
        grantable(order::sorted_set(all_permissions(roles)), held, effective, direct).contains(p)
            <==> {
            &&& exists|i: int|
                0 <= i < roles.len() && text::texts((#[trigger] roles[i]).permissions@).contains(p)
            &&& !(exists|i: int|
                0 <= i < held.len() && held_permissions(#[trigger] held[i]).contains(p))
            &&& !(effective.contains(p) && !granted(direct).contains(p))
        },
{
    let all = order::sorted_set(all_permissions(roles));
    let indirect = order::minus(effective, granted(direct));
    let inherited = inherited(held, effective, direct);
    law_collected_permissions(roles, p);
    lemma_role_grants(held, p);
    order::law_minus(effective, granted(direct));
    order::law_minus(all, inherited);
    lemma_in_sum(indirect, role_grants(held), p);
    assert(indirect.contains(p) <==> effective.contains(p) && !granted(direct).contains(p));
}

/// What is seen of a row is what it holds, each part under its own name.
pub proof fn law_rows_seen(
    a: UserRoleAssignmentRow,
    b: RoleInheritedGroup,
    c: UserPermissionGrantRow,
    d: AvailableRole,
    e: AvailableOrg,
)
    ensures
        a@.assignment_id == a.assignment_id@,
        a@.role_id == a.role_id@,
        a@.role_name == a.role_name@,
        a@.scope_label == a.scope_label@,
        a@.scope_raw == a.scope_raw@,
        a@.permissions == text::texts(a.permissions@),
        b@.role_name == b.role_name@,
        b@.scope_label == b.scope_label@,
        b@.permissions == text::texts(b.permissions@),
        c@.permission == c.permission@,
        c@.scope_label == c.scope_label@,
        c@.scope_raw == c.scope_raw@,
        d@.id == d.id@,
        d@.name == d.name@,
        d@.description == d.description@,
        d@.scope_kind == d.scope_kind@,
        d@.permissions == text::texts(d.permissions@),
        e@.0 == e.id@,
        e@.1 == e.name@,
{
}

/// Part by part: the row of a held role.
pub proof fn law_assignment_row(h: HeldRole)
    ensures
        assignment_row(h).assignment_id == codec::hyphenated(h.assignment.id),
        assignment_row(h).role_id == codec::hyphenated(h.assignment.role_id),
        assignment_row(h).role_name == held_name(h),
        assignment_row(h).scope_label == scope_label(h.assignment.scope, text::opt_text(h.org_name)),
        assignment_row(h).scope_raw == scope_wire(h.assignment.scope),
        assignment_row(h).permissions == order::sorted(held_permissions(h), order::text_order()),
{
}

/// Part by part: the row of a grant.
pub proof fn law_grant_row(g: Grant)
    ensures
        grant_row(g).permission == g.permission@,
        grant_row(g).scope_label == scope_label(g.scope, text::opt_text(g.org_name)),
        grant_row(g).scope_raw == scope_wire(g.scope),
{
}

/// Part by part: the choice that a role makes.
pub proof fn law_role_choice(role: Role)
    ensures
        role_choice(role).id == codec::hyphenated(role.id),
        role_choice(role).name == role.name@,
        role_choice(role).description == text_or_empty(role.description),
        role_choice(role).scope_kind == role.scope_kind.name(),
        role_choice(role).permissions == order::sorted(
            text::texts(role.permissions@),
            order::text_order(),
        ),
{
}

/// One for each, in order: the rows of grants.
pub proof fn law_grant_rows(grants: Seq<Grant>, i: int)
    ensures
        grant_rows(grants).len() == grants.len(),
        0 <= i < grants.len() ==> grant_rows(grants)[i] == grant_row(grants[i]),
{
}

/// One for each, in order: the choices that roles make.
pub proof fn law_role_choices(roles: Seq<Role>, i: int)
    ensures
        role_choices(roles).len() == roles.len(),
        0 <= i < roles.len() ==> role_choices(roles)[i] == role_choice(roles[i]),
{
}

/// One for each, in order: the choices that organizations make: UUID and name.
pub proof fn law_org_choices(orgs: Seq<OrgSummary>, i: int)
    ensures
        org_choices(orgs).len() == orgs.len(),
        0 <= i < orgs.len() ==> org_choices(orgs)[i] == (codec::hyphenated(orgs[i].id), orgs[i].name@),
{
}

/// One for each, in order: the permissions named by grant rows.
pub proof fn law_granted(rows: Seq<GrantRow>, i: int)
    ensures
        granted(rows).len() == rows.len(),
        0 <= i < rows.len() ==> granted(rows)[i] == rows[i].permission,
{
}

/// A kind goes by different names on the page and by different words on the
/// wire.
pub proof fn law_scope_kind_names(kind: RoleScopeKind)
    ensures
        kind is Realm ==> kind.name() == "Realm"@ && kind.wire() == "realm"@,
        kind is Organization ==> kind.name() == "Organization"@ && kind.wire() == "organization"@,
        kind is Any ==> kind.name() == "Any"@ && kind.wire() == "any"@,
        fits_org(Role { scope_kind: kind, ..arbitrary() }) <==> !(kind is Realm),
{
}

/// A scope is shown as the realm's, or as that of the organization, by name where
/// the name is known.
pub proof fn law_scope_label(scope: Scope, org_name: Option<Seq<char>>)
    ensures
        scope is Realm ==> scope_label(scope, org_name) == "Realm-wide"@,
        scope matches Scope::Org(id) ==> (org_name is None ==> scope_label(scope, org_name)
            == "Org: "@ + codec::hyphenated(id)),
        scope is Org ==> (org_name matches Some(name) ==> scope_label(scope, org_name) == "Org: "@
            + name),
{
}

/// A scope that is sent is read back as it was, by whoever reads identifiers
/// back; what is neither the realm nor an organization is refused with its own
/// words.
pub proof fn law_scope_round_trip(
    scope: Scope,
    other: Seq<char>,
    id_of: spec_fn(Seq<char>) -> Option<u128>,
)
    requires
        forall|id: u128| id_of(#[trigger] codec::hyphenated(id)) == Some(id),
    ensures
        scope_meant(scope_wire(scope), id_of) == Ok::<Scope, Seq<char>>(scope),
        other != "realm"@ && !text::has_prefix(other, "org:"@) ==> scope_meant(other, id_of) == Err::<
            Scope,
            Seq<char>,
        >("unrecognised scope: "@ + other),
        id_of(other) is None ==> scope_meant("org:"@ + other, id_of) == Err::<Scope, Seq<char>>(
            "invalid org UUID: "@ + other,
        ),
{
    reveal_strlit("org:");
    reveal_strlit("realm");
    assert(("org:"@ + other)[0] == 'o');
    assert(("org:"@ + other).subrange(0, 4) =~= "org:"@);
    assert(("org:"@ + other).skip(4) =~= other);
    if let Scope::Org(id) = scope {
        let s = scope_wire(scope);
        assert(s[0] == 'o');
        assert(s.subrange(0, 4) =~= "org:"@);
        assert(s.skip(4) =~= codec::hyphenated(id));
    }
}

/// A role that is still there goes by its name and grants what it grants; one
/// that is gone goes by its identifier and grants nothing.
pub proof fn law_held_role(h: HeldRole)
    ensures
        h.role matches Some(role) ==> held_name(h) == role.name@ && held_permissions(h)
            == text::texts(role.permissions@),
        h.role is None ==> held_name(h) == codec::hyphenated(h.assignment.role_id)
            && held_permissions(h).len() == 0,
{
}

/// The roles of a user are shown by name, those of one name by scope, and each of
/// them once.
pub proof fn law_assignment_rows(held: Seq<HeldRole>, i: int, j: int)
    ensures
        assignment_rows(held).to_multiset() == held.map_values(
            |h: HeldRole| assignment_row(h),
        ).to_multiset(),
        0 <= i < j < assignment_rows(held).len() ==> {
            let a = assignment_rows(held)[i];
            let b = assignment_rows(held)[j];
            &&& text::text_le(a.role_name, b.role_name)
            &&& a.role_name == b.role_name ==> text::text_le(a.scope_label, b.scope_label)
        },
{
    let rows = held.map_values(|h: HeldRole| assignment_row(h));
    let le = assignment_order();
    assert forall|a: AssignmentRow, b: AssignmentRow| #[trigger] le(a, b) || le(b, a) by {
        text::lemma_text_le_total(a.role_name, b.role_name);
        text::lemma_text_le_total(a.scope_label, b.scope_label);
    }
    assert forall|a: AssignmentRow, b: AssignmentRow, c: AssignmentRow|
        #[trigger] le(a, b) && #[trigger] le(b, c) implies le(a, c) by {
        if a.role_name != b.role_name && b.role_name != c.role_name {
            text::lemma_text_le_transitive(a.role_name, b.role_name, c.role_name);
            if a.role_name == c.role_name {
                text::lemma_text_le_antisymmetric(a.role_name, b.role_name);
            }
        } else if a.role_name == b.role_name && b.role_name == c.role_name {
            text::lemma_text_le_transitive(a.scope_label, b.scope_label, c.scope_label);
        }
    }
    order::law_sorted(rows, le);
    if 0 <= i < j < assignment_rows(held).len() {
        let a = assignment_rows(held)[i];
        let b = assignment_rows(held)[j];
        assert(le(a, b));
        text::lemma_text_le_reflexive(a.role_name);
    }
}

/// What roles pass on is shown for exactly those roles that grant something.
pub proof fn law_inherited_groups(rows: Seq<AssignmentRow>)
    ensures
        inherited_groups(rows) == rows.filter(
            |r: AssignmentRow| r.permissions.len() > 0,
        ).map_values(
            |r: AssignmentRow|
                InheritedGroup {
                    role_name: r.role_name,
                    scope_label: r.scope_label,
                    permissions: r.permissions,
                },
        ),
    decreases rows.len(),
{
    let keep = |r: AssignmentRow| r.permissions.len() > 0;
    let group = |r: AssignmentRow|
        InheritedGroup {
            role_name: r.role_name,
            scope_label: r.scope_label,
            permissions: r.permissions,
        };
    reveal(Seq::filter);
    if rows.len() > 0 {
        law_inherited_groups(rows.drop_last());
        let before = rows.drop_last().filter(keep);
        if keep(rows.last()) {
            assert(before.push(rows.last()).map_values(group) =~= before.map_values(group).push(
                group(rows.last()),
            ));
        }
    } else {
        assert(rows.filter(keep).map_values(group) =~= Seq::<InheritedGroup>::empty());
    }
}

/// The roles for organizations are all roles but those for the realm alone, in
/// their order.
pub proof fn law_org_roles(roles: Seq<Role>)
    ensures
        org_roles(roles) == roles.filter(|r: Role| !(r.scope_kind is Realm)),
    decreases roles.len(),
{
    reveal(Seq::filter);
    if roles.len() > 0 {
        law_org_roles(roles.drop_last());
    }
}

/// What is read of roles and organizations is limited.
pub proof fn law_access_limits()
    ensures
        ROLES_PAGE == 500,
        ORGS_PAGE == 200,
{
}

/// An identifier is read as such, and as nothing else.
pub proof fn law_uuid_reading(s: Seq<char>)
    ensures
        uuid_reading()(s) == codec::uuid_of(s),
{
}

/// A word that names no kind means the realm.
pub proof fn law_kind_of(word: Seq<char>)
    ensures
        kind_of(word) is Organization <==> word == "organization"@,
        word == "any"@ ==> kind_of(word) is Any,
        word != "organization"@ && word != "any"@ ==> kind_of(word) is Realm,
{
    reveal_strlit("organization");
    reveal_strlit("any");
    assert("organization"@.len() == 12 && "any"@.len() == 3);
}

/// A description that is missing is empty.
pub proof fn law_text_or_empty(o: Option<String>)
    ensures
        o matches Some(s) ==> text_or_empty(o) == s@,
        o is None ==> text_or_empty(o).len() == 0,
{
}

} // verus!
