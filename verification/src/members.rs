//! Members of organizations: their roles, what they may still be granted, and
//! the audit trail of membership changes.

use crate::access;
use crate::codec;
use crate::order;
use crate::text;
use crate::web;
use vstd::prelude::*;
use vstd::string::*;

verus! {

// ---------------------------------------------------------------------------
// Organization roles
// ---------------------------------------------------------------------------

/// What a member is in an organization.
#[derive(Clone, Copy, PartialEq, Eq, Structural)]
pub enum OrganizationRole {
    Owner,
    Admin,
    Member,
}

impl OrganizationRole {
    /// The name of a role.
    pub open spec fn name(self) -> Seq<char> {
        match self {
            OrganizationRole::Owner => "Owner"@,
            OrganizationRole::Admin => "Admin"@,
            OrganizationRole::Member => "Member"@,
        }
    }

    /// The relation that a role stands for in the audit log.
    pub open spec fn relation(self) -> Seq<char> {
        match self {
            OrganizationRole::Owner => "owner"@,
            OrganizationRole::Admin => "admin"@,
            OrganizationRole::Member => "member"@,
        }
    }

    /// The name of a role.
    pub fn label(self) -> (r: String)
        ensures
            r@ == self.name(),
    {
        match self {
            OrganizationRole::Owner => "Owner".to_owned(),
            OrganizationRole::Admin => "Admin".to_owned(),
            OrganizationRole::Member => "Member".to_owned(),
        }
    }
}

/// The role that a form field names; what it does not name is a plain member.
pub open spec fn org_role_of(s: Seq<char>) -> OrganizationRole {
    if s == "Owner"@ {
        OrganizationRole::Owner
    } else if s == "Admin"@ {
        OrganizationRole::Admin
    } else {
        OrganizationRole::Member
    }
}

/// Parses an organization role from a form field.
pub fn parse_org_role(s: &str) -> (r: OrganizationRole)
    ensures
        r == org_role_of(s@),
{
    if text::same(s, "Owner") {
        OrganizationRole::Owner
    } else if text::same(s, "Admin") {
        OrganizationRole::Admin
    } else {
        OrganizationRole::Member
    }
}

/// A role is read back from its name.
pub proof fn law_org_role_round_trip(role: OrganizationRole)
    ensures
        org_role_of(role.name()) == role,
{
    reveal_strlit("Owner");
    reveal_strlit("Admin");
    reveal_strlit("Member");
    assert("Owner"@[0] == 'O' && "Admin"@[0] == 'A' && "Member"@[0] == 'M');
}

/// The relation that a role stands for in the audit log.
pub fn org_role_to_relation(role: OrganizationRole) -> (r: String)
    ensures
        r@ == role.relation(),
{
    match role {
        OrganizationRole::Owner => "owner".to_owned(),
        OrganizationRole::Admin => "admin".to_owned(),
        OrganizationRole::Member => "member".to_owned(),
    }
}

// ---------------------------------------------------------------------------
// Audit events
// ---------------------------------------------------------------------------

/// The event of a role that a user got or lost on an object.
pub open spec fn role_event(
    session: web::UiSession,
    realm_id: u128,
    user_id: u128,
    assigned: bool,
    object_type: Seq<char>,
    object_id: Seq<char>,
    role: Seq<char>,
) -> web::AuditEventView {
    web::ui_event(
        session,
        realm_id,
        if assigned {
            web::AuditAction::RoleAssigned
        } else {
            web::AuditAction::RoleRevoked
        },
        "user"@,
        codec::hyphenated(user_id),
        seq![
            ("via"@, web::MetaView::Text("ui"@)),
            ("object_type"@, web::MetaView::Text(object_type)),
            ("object_id"@, web::MetaView::Text(object_id)),
            ("role"@, web::MetaView::Text(role)),
        ],
    )
}

/// Records that a user got or lost a role on an object.
pub fn audit_role_event(
    session: &web::UiSession,
    realm_id: u128,
    user_id: u128,
    assigned: bool,
    object_type: &str,
    object_id: &str,
    role: &str,
) -> (r: web::AuditEvent)
    ensures
        r@ == role_event(
            *session,
            realm_id,
            user_id,
            assigned,
            object_type@,
            object_id@,
            role@,
        ),
{
    let action = if assigned {
        web::AuditAction::RoleAssigned
    } else {
        web::AuditAction::RoleRevoked
    };
    let mut metadata: Vec<(String, web::Meta)> = Vec::new();
    metadata.push(web::meta_text("via", "ui"));
    metadata.push(web::meta_text("object_type", object_type));
    metadata.push(web::meta_text("object_id", object_id));
    metadata.push(web::meta_text("role", role));
    let r = web::record(
        session,
        realm_id,
        action,
        "user",
        codec::uuid_text(user_id).as_str(),
        metadata,
    );
    proof {
        assert(r@.metadata =~= role_event(
            *session,
            realm_id,
            user_id,
            assigned,
            object_type@,
            object_id@,
            role@,
        ).metadata);
    }
    r
}

/// The event of a member who got or lost an organization role.
pub open spec fn member_event(
    session: web::UiSession,
    realm_id: u128,
    org_id: u128,
    user_id: u128,
    assigned: bool,
    role: OrganizationRole,
) -> web::AuditEventView {
    role_event(
        session,
        realm_id,
        user_id,
        assigned,
        "organization"@,
        codec::hyphenated(org_id),
        role.relation(),
    )
}

fn member_audit(
    session: &web::UiSession,
    realm_id: u128,
    org_id: u128,
    user_id: u128,
    assigned: bool,
    role: OrganizationRole,
) -> (r: web::AuditEvent)
    ensures
        r@ == member_event(*session, realm_id, org_id, user_id, assigned, role),
{
    audit_role_event(
        session,
        realm_id,
        user_id,
        assigned,
        "organization",
        codec::uuid_text(org_id).as_str(),
        org_role_to_relation(role).as_str(),
    )
}

/// Records that a member was added.
pub fn mirror_org_member_added(
    session: &web::UiSession,
    realm_id: u128,
    org_id: u128,
    user_id: u128,
    role: OrganizationRole,
) -> (r: web::AuditEvent)
    ensures
        r@ == member_event(*session, realm_id, org_id, user_id, true, role),
{
    member_audit(session, realm_id, org_id, user_id, true, role)
}

/// The events of a member whose role changed: the old role is lost, then the
/// new one gained; nothing where they are the same.
pub open spec fn role_change_events(
    session: web::UiSession,
    realm_id: u128,
    org_id: u128,
    user_id: u128,
    old: OrganizationRole,
    new: OrganizationRole,
) -> Seq<web::AuditEventView> {
    if old == new {
        Seq::empty()
    } else {
        seq![
            member_event(session, realm_id, org_id, user_id, false, old),
            member_event(session, realm_id, org_id, user_id, true, new),
        ]
    }
}

/// Records that a member's role changed.
pub fn mirror_org_role_changed(
    session: &web::UiSession,
    realm_id: u128,
    org_id: u128,
    user_id: u128,
    old: OrganizationRole,
    new: OrganizationRole,
) -> (r: Vec<web::AuditEvent>)
    ensures
        web::events_of(r@) == role_change_events(*session, realm_id, org_id, user_id, old, new),
{
    let mut events: Vec<web::AuditEvent> = Vec::new();
    if old != new {
        events.push(member_audit(session, realm_id, org_id, user_id, false, old));
        events.push(member_audit(session, realm_id, org_id, user_id, true, new));
    }
    proof {
        assert(web::events_of(events@) =~= role_change_events(
            *session,
            realm_id,
            org_id,
            user_id,
            old,
            new,
        ));
    }
    events
}

/// Records that a member was removed.
pub fn mirror_org_member_removed(
    session: &web::UiSession,
    realm_id: u128,
    org_id: u128,
    user_id: u128,
    role: OrganizationRole,
) -> (r: web::AuditEvent)
    ensures
        r@ == member_event(*session, realm_id, org_id, user_id, false, role),
{
    member_audit(session, realm_id, org_id, user_id, false, role)
}

// ---------------------------------------------------------------------------
// Members
// ---------------------------------------------------------------------------

/// A membership in an organization.
#[derive(Clone, Copy, PartialEq, Eq, Structural)]
pub struct Membership {
    pub org_id: u128,
    pub user_id: u128,
    pub role: OrganizationRole,
}

/// What the engine knows of a user, as far as rows show it.
pub struct Person {
    pub display_name: String,
    pub email: String,
}

/// The name under which a user is shown: the display name, or the email address
/// where there is none.
pub open spec fn name_or_email(p: Person) -> Seq<char> {
    if p.display_name@.len() == 0 {
        p.email@
    } else {
        p.display_name@
    }
}

/// The name under which a user is shown.
pub fn person_name(p: &Person) -> (r: String)
    ensures
        r@ == name_or_email(*p),
        p.display_name@.len() > 0 ==> r@ == p.display_name@,
        p.display_name@.len() == 0 ==> r@ == p.email@,
{
    if p.display_name.as_str().is_empty() {
        p.email.clone()
    } else {
        p.display_name.clone()
    }
}

/// A member with the details of the user.
pub struct MemberView {
    /// The membership.
    pub membership: Membership,
    /// The user's name, or email address where there is none; the UUID where
    /// the user is not known.
    pub user_name: String,
    /// The user's email address.
    pub user_email: String,
}

/// Whether a member is shown with the details of `person`.
pub open spec fn shows_person(v: MemberView, m: Membership, person: Option<Person>) -> bool {
    &&& v.membership == m
    &&& v.user_name@ == match person {
        Some(p) => name_or_email(p),
        None => codec::hyphenated(m.user_id),
    }
    &&& v.user_email@ == match person {
        Some(p) => p.email@,
        None => "(unknown)"@,
    }
}

/// Shows a member.
pub fn member_view(m: Membership, person: &Option<Person>) -> (r: MemberView)
    ensures
        shows_person(r, m, *person),
{
    match person {
        Some(p) => MemberView {
            membership: m,
            user_name: person_name(p),
            user_email: p.email.clone(),
        },
        None => MemberView {
            membership: m,
            user_name: codec::uuid_text(m.user_id),
            user_email: "(unknown)".to_owned(),
        },
    }
}

/// How many of the members are owners.
pub open spec fn owners(members: Seq<Membership>) -> nat
    decreases members.len(),
{
    if members.len() == 0 {
        0
    } else if members.last().role == OrganizationRole::Owner {
        owners(members.drop_last()) + 1
    } else {
        owners(members.drop_last())
    }
}

/// There are no more owners than members.
pub proof fn lemma_owners_bound(members: Seq<Membership>)
    ensures
        owners(members) <= members.len(),
    decreases members.len(),
{
    if members.len() > 0 {
        lemma_owners_bound(members.drop_last());
    }
}

/// Counts the owners of an organization.
pub fn count_org_owners(members: &Vec<Membership>) -> (r: usize)
    ensures
        r == owners(members@),
{
    let mut n: usize = 0;
    let mut i: usize = 0;
    proof {
        assert(members@.take(0) =~= Seq::<Membership>::empty());
    }
    while i < members.len()
        invariant
            i <= members.len(),
            n <= i,
            n == owners(members@.take(i as int)),
        decreases members.len() - i,
    {
        proof {
            assert(members@.take(i + 1).drop_last() =~= members@.take(i as int));
        }
        if members[i].role == OrganizationRole::Owner {
            n += 1;
        }
        i += 1;
    }
    proof {
        assert(members@.take(members@.len() as int) =~= members@);
    }
    n
}

/// Whether a member is the only owner, given the number of owners.
pub open spec fn is_only_owner(m: Membership, owner_count: nat) -> bool {
    m.role == OrganizationRole::Owner && owner_count == 1
}

/// The last owner is the only one: nobody else among the members is an owner.
pub proof fn law_last_owner_is_alone(members: Seq<Membership>, i: int, j: int)
    requires
        0 <= i < members.len(),
        0 <= j < members.len(),
        i != j,
        is_only_owner(members[i], owners(members)),
    ensures
        members[j].role != OrganizationRole::Owner,
{
    if members[j].role == OrganizationRole::Owner {
        if i < j {
            lemma_two_owners(members, i, j);
        } else {
            lemma_two_owners(members, j, i);
        }
    }
}

proof fn lemma_one_owner(members: Seq<Membership>, i: int)
    requires
        0 <= i < members.len(),
        members[i].role == OrganizationRole::Owner,
    ensures
        owners(members) >= 1,
    decreases members.len(),
{
    if i < members.len() - 1 {
        lemma_one_owner(members.drop_last(), i);
    }
}

proof fn lemma_two_owners(members: Seq<Membership>, i: int, j: int)
    requires
        0 <= i < j < members.len(),
        members[i].role == OrganizationRole::Owner,
        members[j].role == OrganizationRole::Owner,
    ensures
        owners(members) >= 2,
    decreases members.len(),
{
    if j < members.len() - 1 {
        lemma_two_owners(members.drop_last(), i, j);
    } else {
        lemma_one_owner(members.drop_last(), i);
    }
}

// ---------------------------------------------------------------------------
// Access of members
// ---------------------------------------------------------------------------

/// A role that a member holds in the organization.
pub struct MemberRbacRole {
    /// Assignment UUID.
    pub assignment_id: String,
    /// Role UUID.
    pub role_id: String,
    /// Role name.
    pub role_name: String,
    /// The permissions that the role grants, each once, sorted.
    pub permissions: Vec<String>,
}

/// A member's role without its representation.
#[verifier::ext_equal]
pub struct MemberRole {
    pub assignment_id: Seq<char>,
    pub role_id: Seq<char>,
    pub role_name: Seq<char>,
    pub permissions: Seq<Seq<char>>,
}

impl View for MemberRbacRole {
    type V = MemberRole;

    open spec fn view(&self) -> MemberRole {
        MemberRole {
            assignment_id: self.assignment_id@,
            role_id: self.role_id@,
            role_name: self.role_name@,
            permissions: text::texts(self.permissions@),
        }
    }
}

/// A permission that a member was granted in the organization.
pub struct MemberPermGrant {
    /// The permission.
    pub permission: String,
    /// The scope as it is sent.
    pub scope_raw: String,
}

impl View for MemberPermGrant {
    type V = (Seq<char>, Seq<char>);

    open spec fn view(&self) -> (Seq<char>, Seq<char>) {
        (self.permission@, self.scope_raw@)
    }
}

/// A member with the roles and permissions held in the organization.
pub struct MemberWithAccess {
    /// The member.
    pub view: MemberView,
    /// Whether the member is the only owner.
    pub is_last_owner: bool,
    /// The roles held in the organization.
    pub rbac_roles: Vec<MemberRbacRole>,
    /// The permissions granted directly in the organization.
    pub extra_perms: Vec<MemberPermGrant>,
    /// The permissions that can still be granted in the organization.
    pub available_permissions: Vec<String>,
}

/// Whether a held role is shown on the organization's page: it holds there,
/// and it is not a role for the realm only.
pub open spec fn shown_in_org(h: access::HeldRole, org_id: u128) -> bool {
    h.assignment.scope == access::Scope::Org(org_id) && match h.role {
        Some(role) => role.scope_kind != access::RoleScopeKind::Realm,
        None => true,
    }
}

/// A held role as a member's role.
pub open spec fn member_role(h: access::HeldRole) -> MemberRole {
    MemberRole {
        assignment_id: codec::hyphenated(h.assignment.id),
        role_id: codec::hyphenated(h.assignment.role_id),
        role_name: access::held_name(h),
        permissions: order::sorted_set(access::held_permissions(h)),
    }
}

/// The roles that a member holds in the organization.
pub open spec fn member_roles(held: Seq<access::HeldRole>, org_id: u128) -> Seq<MemberRole>
    decreases held.len(),
{
    if held.len() == 0 {
        Seq::empty()
    } else {
        let before = member_roles(held.drop_last(), org_id);
        if shown_in_org(held.last(), org_id) {
            before.push(member_role(held.last()))
        } else {
            before
        }
    }
}

/// The permissions that a member was granted in the organization.
pub open spec fn member_grants(grants: Seq<access::Grant>, org_id: u128) -> Seq<
    (Seq<char>, Seq<char>),
>
    decreases grants.len(),
{
    if grants.len() == 0 {
        Seq::empty()
    } else {
        let before = member_grants(grants.drop_last(), org_id);
        if grants.last().scope == access::Scope::Org(org_id) {
            before.push(
                (grants.last().permission@, access::scope_wire(access::Scope::Org(org_id))),
            )
        } else {
            before
        }
    }
}

/// The permissions of several roles, one after the other.
pub open spec fn role_permissions(roles: Seq<MemberRole>) -> Seq<Seq<char>>
    decreases roles.len(),
{
    if roles.len() == 0 {
        Seq::empty()
    } else {
        role_permissions(roles.drop_last()) + roles.last().permissions
    }
}

/// The permissions that a member holds in the organization, directly or
/// through roles.
pub open spec fn held_in_org(
    roles: Seq<MemberRole>,
    grants: Seq<(Seq<char>, Seq<char>)>,
) -> Seq<Seq<char>> {
    Seq::new(grants.len(), |i: int| grants[i].0) + role_permissions(roles)
}

/// The permissions that a member can still be granted in the organization.
pub open spec fn org_grantable(
    all_roles: Seq<access::Role>,
    roles: Seq<MemberRole>,
    grants: Seq<(Seq<char>, Seq<char>)>,
) -> Seq<Seq<char>> {
    order::minus(
        order::sorted_set(access::all_permissions(access::org_roles(all_roles))),
        held_in_org(roles, grants),
    )
}

fn build_member_roles(held: &Vec<access::HeldRole>, org_id: u128) -> (r: Vec<MemberRbacRole>)
    ensures
        text::views(r@) == member_roles(held@, org_id),
{
    broadcast use text::lemma_views_push;

    let mut out: Vec<MemberRbacRole> = Vec::new();
    let mut i: usize = 0;
    proof {
        assert(text::views(out@) =~= member_roles(held@.take(0), org_id));
    }
    while i < held.len()
        invariant
            i <= held.len(),
            text::views(out@) == member_roles(held@.take(i as int), org_id),
        decreases held.len() - i,
    {
        let h = &held[i];
        proof {
            assert(held@.take(i + 1).drop_last() =~= held@.take(i as int));
        }
        let here = h.assignment.scope == access::Scope::Org(org_id);
        let fits = match &h.role {
            Some(role) => role.scope_kind != access::RoleScopeKind::Realm,
            None => true,
        };
        if here && fits {
            let (role_name, permissions) = access::name_and_permissions(h);
            out.push(
                MemberRbacRole {
                    assignment_id: codec::uuid_text(h.assignment.id),
                    role_id: codec::uuid_text(h.assignment.role_id),
                    role_name,
                    permissions: order::sort_dedup(permissions),
                },
            );
        }
        i += 1;
    }
    proof {
        assert(held@.take(held@.len() as int) =~= held@);
    }
    out
}

fn build_member_grants(grants: &Vec<access::Grant>, org_id: u128) -> (r: Vec<MemberPermGrant>)
    ensures
        text::views(r@) == member_grants(grants@, org_id),
{
    broadcast use text::lemma_views_push;

    let scope_raw = access::send_scope(access::Scope::Org(org_id));
    let mut out: Vec<MemberPermGrant> = Vec::new();
    let mut i: usize = 0;
    proof {
        assert(text::views(out@) =~= member_grants(grants@.take(0), org_id));
    }
    while i < grants.len()
        invariant
            i <= grants.len(),
            scope_raw@ == access::scope_wire(access::Scope::Org(org_id)),
            text::views(out@) == member_grants(grants@.take(i as int), org_id),
        decreases grants.len() - i,
    {
        let g = &grants[i];
        proof {
            assert(grants@.take(i + 1).drop_last() =~= grants@.take(i as int));
        }
        if g.scope == access::Scope::Org(org_id) {
            out.push(
                MemberPermGrant { permission: g.permission.clone(), scope_raw: scope_raw.clone() },
            );
        }
        i += 1;
    }
    proof {
        assert(grants@.take(grants@.len() as int) =~= grants@);
    }
    out
}

fn already_held(roles: &Vec<MemberRbacRole>, grants: &Vec<MemberPermGrant>) -> (r: Vec<String>)
    ensures
        text::texts(r@) == held_in_org(text::views(roles@), text::views(grants@)),
{
    let ghost g = text::views(grants@);
    let ghost direct = Seq::new(g.len(), |i: int| g[i].0);
    let mut out: Vec<String> = Vec::new();
    let mut i: usize = 0;
    while i < grants.len()
        invariant
            i <= grants.len(),
            out.len() == i,
            forall|j: int| 0 <= j < i ==> (#[trigger] out@[j])@ == grants@[j].permission@,
        decreases grants.len() - i,
    {
        out.push(grants[i].permission.clone());
        i += 1;
    }
    let mut k: usize = 0;
    let ghost all = text::views(roles@);
    proof {
        assert(text::texts(out@) =~= direct + role_permissions(all.take(0)));
    }
    while k < roles.len()
        invariant
            all == text::views(roles@),
            k <= roles.len(),
            text::texts(out@) == direct + role_permissions(all.take(k as int)),
        decreases roles.len() - k,
    {
        proof {
            assert(all.take(k + 1).drop_last() =~= all.take(k as int));
            assert(all.take(k + 1).last() == roles@[k as int]@);
        }
        access::extend(&mut out, &roles[k].permissions);
        proof {
            assert(text::texts(out@) =~= direct + role_permissions(all.take(k + 1)));
        }
        k += 1;
    }
    proof {
        assert(all.take(roles@.len() as int) =~= all);
    }
    out
}

/// Builds the access of a member: the roles and permissions held in the
/// organization, and those that can still be granted there.
pub fn build_member_with_access(
    org_id: u128,
    view: MemberView,
    is_last_owner: bool,
    held: &Vec<access::HeldRole>,
    grants: &Vec<access::Grant>,
    all_roles: &Vec<access::Role>,
) -> (r: MemberWithAccess)
    ensures
        r.view == view,
        r.is_last_owner == is_last_owner,
        text::views(r.rbac_roles@) == member_roles(held@, org_id),
        text::views(r.extra_perms@) == member_grants(grants@, org_id),
        text::texts(r.available_permissions@) == org_grantable(
            all_roles@,
            member_roles(held@, org_id),
            member_grants(grants@, org_id),
        ),
{
    let rbac_roles = build_member_roles(held, org_id);
    let extra_perms = build_member_grants(grants, org_id);
    let held_already = already_held(&rbac_roles, &extra_perms);
    let all = access::collect_org_permissions(all_roles);
    let available_permissions = order::subtract(&all, &held_already);
    MemberWithAccess { view, is_last_owner, rbac_roles, extra_perms, available_permissions }
}

/// A permission can still be granted in an organization exactly where a role
/// that fits organizations grants it and the member does not hold it there yet.
pub proof fn law_org_grantable(
    all_roles: Seq<access::Role>,
    roles: Seq<MemberRole>,
    grants: Seq<(Seq<char>, Seq<char>)>,
    p: Seq<char>,
)
    ensures
        org_grantable(all_roles, roles, grants).contains(p) <==> (exists|i: int|
            0 <= i < access::org_roles(all_roles).len() && text::texts(
                (#[trigger] access::org_roles(all_roles)[i]).permissions@,
            ).contains(p)) && !held_in_org(roles, grants).contains(p),
        order::ascending(org_grantable(all_roles, roles, grants)),
{
    let fitting = access::org_roles(all_roles);
    access::law_collected_permissions(fitting, p);
    let all = order::sorted_set(access::all_permissions(fitting));
    order::law_minus(all, held_in_org(roles, grants));
    assert(order::minus(all, held_in_org(roles, grants)).contains(p) <==> all.contains(p)
        && !held_in_org(roles, grants).contains(p));
}

// ---------------------------------------------------------------------------
// What is recorded and shown of members
// ---------------------------------------------------------------------------

/// Giving and taking a role are recorded of the user, with the role and with the
/// thing on which it is held.
pub proof fn law_role_event(
    session: web::UiSession,
    realm_id: u128,
    user_id: u128,
    assigned: bool,
    object_type: Seq<char>,
    object_id: Seq<char>,
    role: Seq<char>,
)
    ensures
        ({
            let e = role_event(
                session,
                realm_id,
                user_id,
                assigned,
                object_type,
                object_id,
                role,
            );
            &&& e.realm_id == realm_id
            &&& e.actor == codec::hyphenated(session.user_id)
            &&& assigned ==> e.action is RoleAssigned
            &&& !assigned ==> e.action is RoleRevoked
            &&& e.resource_type == "user"@
            &&& e.resource_id == codec::hyphenated(user_id)
            &&& web::told(e.metadata, "via"@) == Some(web::MetaView::Text("ui"@))
            &&& web::told(e.metadata, "object_type"@) == Some(web::MetaView::Text(object_type))
            &&& web::told(e.metadata, "object_id"@) == Some(web::MetaView::Text(object_id))
            &&& web::told(e.metadata, "role"@) == Some(web::MetaView::Text(role))
        }),
{
    reveal_strlit("via");
    reveal_strlit("object_type");
    reveal_strlit("object_id");
    reveal_strlit("role");
    assert("via"@.len() == 3 && "role"@.len() == 4);
    assert("object_type"@.len() == 11 && "object_id"@.len() == 9);
    let m = role_event(
        session,
        realm_id,
        user_id,
        assigned,
        object_type,
        object_id,
        role,
    ).metadata;
    assert(m.last().0 == "role"@);
    assert(m.drop_last().last().0 == "object_id"@);
    assert(m.drop_last().drop_last().last().0 == "object_type"@);
    assert(m.drop_last().drop_last().drop_last().last().0 == "via"@);
    reveal_with_fuel(web::told, 5);
}

/// A membership that begins or ends is recorded of the member, with the
/// organization and the role held there.
pub proof fn law_member_event(
    session: web::UiSession,
    realm_id: u128,
    org_id: u128,
    user_id: u128,
    assigned: bool,
    role: OrganizationRole,
)
    ensures
        ({
            let e = member_event(session, realm_id, org_id, user_id, assigned, role);
            &&& e.realm_id == realm_id
            &&& e.actor == codec::hyphenated(session.user_id)
            &&& assigned ==> e.action is RoleAssigned
            &&& !assigned ==> e.action is RoleRevoked
            &&& e.resource_type == "user"@
            &&& e.resource_id == codec::hyphenated(user_id)
            &&& web::told(e.metadata, "object_type"@) == Some(web::MetaView::Text("organization"@))
            &&& web::told(e.metadata, "object_id"@) == Some(
                web::MetaView::Text(codec::hyphenated(org_id)),
            )
            &&& role is Owner ==> web::told(e.metadata, "role"@) == Some(
                web::MetaView::Text("owner"@),
            )
            &&& role is Admin ==> web::told(e.metadata, "role"@) == Some(
                web::MetaView::Text("admin"@),
            )
            &&& role is Member ==> web::told(e.metadata, "role"@) == Some(
                web::MetaView::Text("member"@),
            )
        }),
{
    law_role_event(
        session,
        realm_id,
        user_id,
        assigned,
        "organization"@,
        codec::hyphenated(org_id),
        role.relation(),
    );
}

/// A role that stays leaves no trace; a change ends the old role before it
/// begins the new one.
pub proof fn law_role_change(
    session: web::UiSession,
    realm_id: u128,
    org_id: u128,
    user_id: u128,
    before: OrganizationRole,
    after: OrganizationRole,
)
    ensures
        ({
            let log = role_change_events(session, realm_id, org_id, user_id, before, after);
            &&& before == after ==> log.len() == 0
            &&& before != after ==> {
                &&& log.len() == 2
                &&& log[0].action is RoleRevoked
                &&& log[1].action is RoleAssigned
                &&& web::told(log[0].metadata, "role"@) == Some(
                    web::MetaView::Text(before.relation()),
                )
                &&& web::told(log[1].metadata, "role"@) == Some(
                    web::MetaView::Text(after.relation()),
                )
                &&& log[0].resource_id == codec::hyphenated(user_id)
                &&& log[1].resource_id == codec::hyphenated(user_id)
            }
        }),
{
    law_member_event(session, realm_id, org_id, user_id, false, before);
    law_member_event(session, realm_id, org_id, user_id, true, after);
}

/// Roles go by different names, and by different relations.
pub proof fn law_role_names(a: OrganizationRole, b: OrganizationRole)
    ensures
        a.name() == b.name() ==> a == b,
        a.relation() == b.relation() ==> a == b,
        a is Owner ==> a.name() == "Owner"@ && a.relation() == "owner"@,
        a is Admin ==> a.name() == "Admin"@ && a.relation() == "admin"@,
        a is Member ==> a.name() == "Member"@ && a.relation() == "member"@,
{
    reveal_strlit("Owner");
    reveal_strlit("Admin");
    reveal_strlit("Member");
    reveal_strlit("owner");
    reveal_strlit("admin");
    reveal_strlit("member");
    assert("Owner"@[0] == 'O' && "Admin"@[0] == 'A' && "Member"@[0] == 'M');
    assert("owner"@[0] == 'o' && "admin"@[0] == 'a' && "member"@[0] == 'm');
}

/// A member is shown by name, by address where there is no name, and by
/// identifier where the person is gone; the address is shown beside it.
pub proof fn law_member_view(v: MemberView, m: Membership, person: Option<Person>)
    requires
        shows_person(v, m, person),
    ensures
        v.membership == m,
        person matches Some(p) ==> v.user_email@ == p.email@,
        person matches Some(p) ==> v.user_name@ == (if p.display_name@.len() == 0 {
            p.email@
        } else {
            p.display_name@
        }),
        person is None ==> v.user_email@ == "(unknown)"@ && v.user_name@ == codec::hyphenated(
            m.user_id,
        ),
{
}

/// The owners are those among the members whose role is owner.
pub proof fn law_owners(members: Seq<Membership>)
    ensures
        owners(members) == members.filter(|m: Membership| m.role is Owner).len(),
    decreases members.len(),
{
    reveal(Seq::filter);
    if members.len() > 0 {
        law_owners(members.drop_last());
    }
}

/// A member's page shows exactly the roles held within the organization, and no
/// role of the realm.
pub proof fn law_member_roles(held: Seq<access::HeldRole>, org_id: u128)
    ensures
        member_roles(held, org_id) == held.filter(
            |h: access::HeldRole|
                h.assignment.scope == access::Scope::Org(org_id) && (h.role matches Some(role)
                    ==> !(role.scope_kind is Realm)),
        ).map_values(
            |h: access::HeldRole|
                MemberRole {
                    assignment_id: codec::hyphenated(h.assignment.id),
                    role_id: codec::hyphenated(h.assignment.role_id),
                    role_name: access::held_name(h),
                    permissions: order::sorted_set(access::held_permissions(h)),
                },
        ),
    decreases held.len(),
{
    let keep = |h: access::HeldRole|
        h.assignment.scope == access::Scope::Org(org_id) && (h.role matches Some(role)
            ==> !(role.scope_kind is Realm));
    let row = |h: access::HeldRole|
        MemberRole {
            assignment_id: codec::hyphenated(h.assignment.id),
            role_id: codec::hyphenated(h.assignment.role_id),
            role_name: access::held_name(h),
            permissions: order::sorted_set(access::held_permissions(h)),
        };
    reveal(Seq::filter);
    if held.len() > 0 {
        law_member_roles(held.drop_last(), org_id);
        let before = held.drop_last().filter(keep);
        if keep(held.last()) {
            assert(before.push(held.last()).map_values(row) =~= before.map_values(row).push(
                row(held.last()),
            ));
        }
    } else {
        assert(held.filter(keep).map_values(row) =~= Seq::<MemberRole>::empty());
    }
}

/// A member's page shows exactly the permissions granted within the
/// organization, each with that scope.
pub proof fn law_member_grants(grants: Seq<access::Grant>, org_id: u128)
    ensures
        member_grants(grants, org_id) == grants.filter(
            |g: access::Grant| g.scope == access::Scope::Org(org_id),
        ).map_values(|g: access::Grant| (g.permission@, access::scope_wire(g.scope))),
    decreases grants.len(),
{
    let keep = |g: access::Grant| g.scope == access::Scope::Org(org_id);
    let row = |g: access::Grant| (g.permission@, access::scope_wire(g.scope));
    reveal(Seq::filter);
    if grants.len() > 0 {
        law_member_grants(grants.drop_last(), org_id);
        let before = grants.drop_last().filter(keep);
        if keep(grants.last()) {
            assert(before.push(grants.last()).map_values(row) =~= before.map_values(row).push(
                row(grants.last()),
            ));
        }
    } else {
        assert(grants.filter(keep).map_values(row) =~= Seq::<(Seq<char>, Seq<char>)>::empty());
    }
}

/// What is seen of a row is what it holds, each part under its own name.
pub proof fn law_rows_seen(a: MemberRbacRole, b: MemberPermGrant)
    ensures
        a@.assignment_id == a.assignment_id@,
        a@.role_id == a.role_id@,
        a@.role_name == a.role_name@,
        a@.permissions == text::texts(a.permissions@),
        b@.0 == b.permission@,
        b@.1 == b.scope_raw@,
{
}

/// Part by part: a held role as a member's role.
pub proof fn law_member_role(h: access::HeldRole)
    ensures
        member_role(h).assignment_id == codec::hyphenated(h.assignment.id),
        member_role(h).role_id == codec::hyphenated(h.assignment.role_id),
        member_role(h).role_name == access::held_name(h),
        member_role(h).permissions == order::sorted_set(access::held_permissions(h)),
{
}

/// A member is marked as the last owner exactly where the member owns the
/// organization and nobody else does.
pub proof fn law_only_owner(m: Membership, owner_count: nat)
    ensures
        is_only_owner(m, owner_count) <==> m.role is Owner && owner_count == 1,
{
}

/// What a member holds in an organization is what is granted there and what the
/// roles held there grant.
pub proof fn law_held_in_org(
    roles: Seq<MemberRole>,
    grants: Seq<(Seq<char>, Seq<char>)>,
    p: Seq<char>,
)
    ensures
        held_in_org(roles, grants).contains(p) <==> (exists|i: int|
            0 <= i < grants.len() && (#[trigger] grants[i]).0 == p) || (exists|i: int|
            0 <= i < roles.len() && (#[trigger] roles[i]).permissions.contains(p)),
    decreases roles.len(),
{
    let direct = Seq::new(grants.len(), |i: int| grants[i].0);
    let all = held_in_org(roles, grants);
    lemma_role_permissions(roles, p);
    let passed = role_permissions(roles);
    if all.contains(p) {
        let k = choose|k: int| 0 <= k < all.len() && all[k] == p;
        if k < direct.len() {
            assert(grants[k].0 == p);
        } else {
            assert(passed[k - direct.len()] == p);
        }
    }
    if exists|i: int| 0 <= i < grants.len() && (#[trigger] grants[i]).0 == p {
        let i = choose|i: int| 0 <= i < grants.len() && (#[trigger] grants[i]).0 == p;
        assert(all[i] == p);
    }
    if passed.contains(p) {
        let k = choose|k: int| 0 <= k < passed.len() && passed[k] == p;
        assert(all[direct.len() + k] == p);
    }
}

proof fn lemma_role_permissions(roles: Seq<MemberRole>, p: Seq<char>)
    ensures
        role_permissions(roles).contains(p) <==> exists|i: int|
            0 <= i < roles.len() && (#[trigger] roles[i]).permissions.contains(p),
    decreases roles.len(),
{
    if roles.len() > 0 {
        let rest = roles.drop_last();
        let last = roles.last().permissions;
        let before = role_permissions(rest);
        let all = role_permissions(roles);
        lemma_role_permissions(rest, p);
        if all.contains(p) {
            let k = choose|k: int| 0 <= k < all.len() && all[k] == p;
            if k < before.len() {
                assert(before[k] == p);
                let i = choose|i: int|
                    0 <= i < rest.len() && (#[trigger] rest[i]).permissions.contains(p);
                assert(roles[i].permissions.contains(p));
            } else {
                assert(last[k - before.len()] == p);
                assert(roles[roles.len() - 1].permissions.contains(p));
            }
        }
        if exists|i: int| 0 <= i < roles.len() && (#[trigger] roles[i]).permissions.contains(p) {
            let i = choose|i: int|
                0 <= i < roles.len() && (#[trigger] roles[i]).permissions.contains(p);
            if i < rest.len() {
                assert(rest[i].permissions.contains(p));
                let k = choose|k: int| 0 <= k < before.len() && before[k] == p;
                assert(all[k] == p);
            } else {
                let k = choose|k: int| 0 <= k < last.len() && last[k] == p;
                assert(all[before.len() + k] == p);
            }
        }
    }
}

/// A word that names no role means a plain member.
pub proof fn law_org_role_of(word: Seq<char>)
    ensures
        org_role_of(word) is Owner <==> word == "Owner"@,
        word == "Admin"@ ==> org_role_of(word) is Admin,
        word != "Owner"@ && word != "Admin"@ ==> org_role_of(word) is Member,
{
    reveal_strlit("Owner");
    reveal_strlit("Admin");
    assert("Owner"@[0] == 'O' && "Admin"@[0] == 'A');
}

/// A role is shown in an organization exactly where it is held there and is no
/// role for the realm alone.
pub proof fn law_shown_in_org(h: access::HeldRole, org_id: u128)
    ensures
        shown_in_org(h, org_id) <==> h.assignment.scope == access::Scope::Org(org_id) && !(h.role
            is Some && h.role->0.scope_kind is Realm),
{
}

} // verus!
