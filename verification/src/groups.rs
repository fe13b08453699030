//! Groups: lists, creation, the group page, editing, deletion, members and
//! roles.

use crate::access;
use crate::audit;
use crate::codec;
use crate::members;
use crate::org_members;
use crate::orgs;
use crate::sessions;
use crate::text;
use crate::users;
use crate::web;
use vstd::prelude::*;
use vstd::string::*;

verus! {

// ---------------------------------------------------------------------------
// The model
// ---------------------------------------------------------------------------

/// A group as the engine knows it.
pub struct Group {
    pub id: u128,
    pub name: String,
    pub slug: String,
    pub description: Option<String>,
}

/// A member of a group.
#[derive(Clone, Copy, PartialEq, Eq, Structural)]
pub enum GroupMember {
    User(u128),
    Group(u128),
}

/// The address of a group's page, with what follows it.
pub open spec fn group_address(target: web::TargetRealm, id: u128, suffix: Seq<char>) -> Seq<char> {
    "/ui/admin/realms/"@ + target.name@ + "/groups/"@ + codec::hyphenated(id) + suffix
}

fn group_url(target: &web::TargetRealm, id: u128, suffix: &str) -> (r: String)
    ensures
        r@ == group_address(*target, id, suffix@),
{
    "/ui/admin/realms/".to_owned().concat(target.name.as_str()).concat("/groups/").concat(
        codec::uuid_text(id).as_str(),
    ).concat(suffix)
}

/// The event of an operation on a group.
pub open spec fn group_event(
    session: web::UiSession,
    realm_id: u128,
    action: web::AuditAction,
    group_id: u128,
    metadata: Seq<(Seq<char>, web::MetaView)>,
) -> web::AuditEventView {
    web::ui_event(
        session,
        realm_id,
        action,
        "group"@,
        codec::hyphenated(group_id),
        metadata,
    )
}

/// The operations on groups are told apart by their names.
proof fn lemma_group_operations()
    ensures
        audit::group_action("create"@) == Some(web::AuditAction::GroupCreated),
        audit::group_action("update"@) == Some(web::AuditAction::GroupUpdated),
        audit::group_action("delete"@) == Some(web::AuditAction::GroupDeleted),
        audit::group_action("member_add"@) == Some(web::AuditAction::GroupMemberAdded),
        audit::group_action("member_remove"@) == Some(web::AuditAction::GroupMemberRemoved),
{
    reveal_strlit("create");
    reveal_strlit("update");
    reveal_strlit("delete");
    reveal_strlit("member_add");
    reveal_strlit("member_remove");
    assert("create"@[0] == 'c' && "update"@[0] == 'u' && "delete"@[0] == 'd');
    assert("member_add"@[0] == 'm' && "member_remove"@[0] == 'm');
    assert("member_add"@.len() != "member_remove"@.len());
}

// ---------------------------------------------------------------------------
// The list
// ---------------------------------------------------------------------------

/// The number of direct members on the page of a group.
pub const SHOWN_MEMBERS: usize = 500;

/// The number of direct members whom the picker leaves out.
pub const KNOWN_MEMBERS: usize = 1000;

/// Query parameters of the list.
pub struct GroupListParams {
    /// Where the page starts.
    pub cursor: Option<String>,
    /// What to search for in names and slugs.
    pub q: Option<String>,
}

/// Decides what the list asks the engine for: the items to search among, else a
/// page.
pub fn admin_groups_list_query(params: &GroupListParams) -> (r: users::ListQuery)
    ensures
        users::asks_list(r, users::search_text(params.q), params.cursor, users::SEARCH_WINDOW),
{
    let q = access::or_empty(&params.q);
    users::list_query(q.as_str(), &params.cursor, users::SEARCH_WINDOW)
}

/// Whether a search finds a group.
pub open spec fn is_found(group: Group, needle: Seq<char>) -> bool {
    text::occurs_nocase(group.name@, needle) || text::occurs_nocase(group.slug@, needle)
}

/// The groups that a search finds.
pub open spec fn found_groups(groups: Seq<Group>, needle: Seq<char>) -> Seq<Group>
    decreases groups.len(),
{
    if groups.len() == 0 {
        groups
    } else if is_found(groups.last(), needle) {
        found_groups(groups.drop_last(), needle).push(groups.last())
    } else {
        found_groups(groups.drop_last(), needle)
    }
}

fn search_groups(groups: Vec<Group>, needle: &str) -> (r: Vec<Group>)
    ensures
        r@ == found_groups(groups@, needle@),
{
    let ghost all = groups@;
    let mut rest = groups;
    let mut r: Vec<Group> = Vec::new();
    let ghost mut n: int = 0;
    proof {
        assert(all.skip(0) =~= all);
        assert(all.take(0) =~= Seq::<Group>::empty());
    }
    while rest.len() > 0
        invariant
            0 <= n <= all.len(),
            rest@ == all.skip(n),
            r@ == found_groups(all.take(n), needle@),
        decreases rest.len(),
    {
        let group = rest.remove(0);
        proof {
            assert(rest@ =~= all.skip(n + 1));
            assert(all.take(n + 1).drop_last() =~= all.take(n));
            assert(all.take(n + 1).last() == group);
        }
        if text::contains_nocase(group.name.as_str(), needle) || text::contains_nocase(
            group.slug.as_str(),
            needle,
        ) {
            r.push(group);
        }
        proof {
            n = n + 1;
        }
    }
    proof {
        assert(all.take(n) =~= all);
    }
    r
}

/// The list of the groups of a realm.
pub struct GroupListTemplate {
    pub groups: Vec<Group>,
    pub next_cursor: Option<String>,
    pub search_query: String,
    pub realm_name: String,
    pub active_tab: String,
    pub chrome: web::Chrome,
}

/// Shows the groups of a realm: those that the search finds, or the page.
pub fn admin_groups_list(
    site: &web::Site,
    session: &web::UiSession,
    target: &web::TargetRealm,
    params: &GroupListParams,
    listed: Result<sessions::Page<Group>, web::EngineError>,
) -> (r: web::Reply<GroupListTemplate>)
    ensures
        listed is Err ==> r is ServerError,
        listed matches Ok(page) ==> r is Page && {
            let p = r->Page_0;
            let q = users::search_text(params.q);
            &&& text::byte_len(q) >= 2 ==> p.groups@ == found_groups(page.items@, q)
                && p.next_cursor is None
            &&& text::byte_len(q) < 2 ==> p.groups == page.items && p.next_cursor
                == page.next_cursor
            &&& p.search_query@ == q
            &&& p.realm_name@ == target.name@
            &&& p.active_tab@ == "groups"@
            &&& p.chrome.is_admin_page(*site, *session, "realm-workspace"@)
            &&& p.chrome.flash is None
        },
{
    let page = match listed {
        Err(_) => return web::Reply::ServerError,
        Ok(page) => page,
    };
    let search_query = access::or_empty(&params.q);
    let (groups, next_cursor) = if text::two_bytes_or_more(search_query.as_str()) {
        (search_groups(page.items, search_query.as_str()), None)
    } else {
        (page.items, page.next_cursor)
    };
    web::Reply::Page(
        GroupListTemplate {
            groups,
            next_cursor,
            search_query,
            realm_name: target.name.clone(),
            active_tab: "groups".to_owned(),
            chrome: web::Chrome::admin(site, session, "realm-workspace"),
        },
    )
}

// ---------------------------------------------------------------------------
// Creation
// ---------------------------------------------------------------------------

/// The page that creates a group.
pub struct GroupNewTemplate {
    pub error: Option<String>,
    pub realm_name: String,
    pub form_name: String,
    pub form_slug: String,
    pub form_description: String,
    pub active_tab: String,
    pub chrome: web::Chrome,
}

impl GroupNewTemplate {
    /// Whether the page shows a form as it is filled in, and an error.
    pub open spec fn shows(
        self,
        site: web::Site,
        session: web::UiSession,
        target: web::TargetRealm,
        error: Option<Seq<char>>,
        name: Seq<char>,
        slug: Seq<char>,
        description: Seq<char>,
    ) -> bool {
        &&& text::opt_text(self.error) == error
        &&& self.realm_name@ == target.name@
        &&& self.form_name@ == name
        &&& self.form_slug@ == slug
        &&& self.form_description@ == description
        &&& self.active_tab@ == "groups"@
        &&& self.chrome.is_admin_page(site, session, "realm-workspace"@)
        &&& self.chrome.flash is None
    }
}

/// Shows the empty form.
pub fn admin_group_create_form(
    site: &web::Site,
    session: &web::UiSession,
    target: &web::TargetRealm,
) -> (r: web::Reply<GroupNewTemplate>)
    ensures
        r is Page && r->Page_0.shows(
            *site,
            *session,
            *target,
            None,
            Seq::empty(),
            Seq::empty(),
            Seq::empty(),
        ),
{
    web::Reply::Page(
        GroupNewTemplate {
            error: None,
            realm_name: target.name.clone(),
            form_name: String::new(),
            form_slug: String::new(),
            form_description: String::new(),
            active_tab: "groups".to_owned(),
            chrome: web::Chrome::admin(site, session, "realm-workspace"),
        },
    )
}

/// The form that creates a group.
pub struct CreateGroupForm {
    pub name: String,
    pub slug: String,
    pub description: String,
    pub csrf: String,
}

/// What the engine is asked to create.
pub struct CreateGroupRequest {
    pub name: String,
    pub slug: String,
    pub description: Option<String>,
}

/// Reads what to create.
pub fn admin_group_create_submit_request(csrf_ok: bool, form: &CreateGroupForm) -> (r: Result<
    CreateGroupRequest,
    web::Reply<GroupNewTemplate>,
>)
    ensures
        !csrf_ok ==> r is Err && r->Err_0 is Forbidden,
        csrf_ok ==> r is Ok && {
            let q = r->Ok_0;
            &&& q.name@ == form.name@
            &&& q.slug@ == form.slug@
            &&& text::opt_text(q.description) == orgs::filled_in(form.description@)
        },
{
    if !csrf_ok {
        return Err(web::Reply::Forbidden);
    }
    Ok(
        CreateGroupRequest {
            name: form.name.clone(),
            slug: form.slug.clone(),
            description: orgs::filled(form.description.as_str()),
        },
    )
}

/// What a form says after a failure.
pub open spec fn group_error(e: web::EngineError, otherwise: Seq<char>) -> Seq<char> {
    match e.kind {
        web::ErrorKind::DuplicateGroupSlug => "A group with that slug already exists."@,
        _ => otherwise + e.text@,
    }
}

fn group_message(e: &web::EngineError, otherwise: &str) -> (r: String)
    ensures
        r@ == group_error(*e, otherwise@),
{
    match &e.kind {
        web::ErrorKind::DuplicateGroupSlug => "A group with that slug already exists.".to_owned(),
        _ => otherwise.to_owned().concat(e.text.as_str()),
    }
}

/// Answers after the engine tried to create a group.
pub fn admin_group_create_submit(
    site: &web::Site,
    session: &web::UiSession,
    target: &web::TargetRealm,
    form: &CreateGroupForm,
    created: Result<u128, web::EngineError>,
) -> (r: web::Outcome<GroupNewTemplate>)
    ensures
        match created {
            Ok(id) => {
                &&& r.log() == seq![
                    group_event(
                        *session,
                        target.id,
                        web::AuditAction::GroupCreated,
                        id,
                        web::via_ui(),
                    ),
                ]
                &&& r.reply.redirects(group_address(*target, id, ""@))
            },
            Err(e) => r.is_silent() && r.reply is Page && r.reply->Page_0.shows(
                *site,
                *session,
                *target,
                Some(group_error(e, "Unable to create group: "@)),
                form.name@,
                form.slug@,
                form.description@,
            ),
        },
{
    match created {
        Ok(id) => {
            let event = audit::audit_group_event(session, target.id, id, "create", &None);
            proof {
                lemma_group_operations();
            }
            web::Outcome::noted(web::Reply::Redirect(group_url(target, id, "")), event)
        },
        Err(e) => web::Outcome::silent(
            web::Reply::Page(
                GroupNewTemplate {
                    error: Some(group_message(&e, "Unable to create group: ")),
                    realm_name: target.name.clone(),
                    form_name: form.name.clone(),
                    form_slug: form.slug.clone(),
                    form_description: form.description.clone(),
                    active_tab: "groups".to_owned(),
                    chrome: web::Chrome::admin(site, session, "realm-workspace"),
                },
            ),
        ),
    }
}

// ---------------------------------------------------------------------------
// Members
// ---------------------------------------------------------------------------

/// How a group is called.
pub struct GroupNames {
    pub name: String,
    pub slug: String,
}

/// A member of a group with what the engines know of it.
pub enum ResolvedMember {
    User { id: u128, person: Option<members::Person> },
    Group { id: u128, group: Option<GroupNames> },
}

/// A member of a group as it is shown.
pub struct GroupMemberView {
    /// "user" or "group".
    pub member_kind: String,
    /// UUID of the user or group.
    pub member_id_uuid: String,
    /// Name of the user or group.
    pub display_name: String,
    /// Email address of the user or slug of the group.
    pub subtitle: String,
}

/// A member view without its representation.
#[verifier::ext_equal]
pub struct MemberLine {
    pub member_kind: Seq<char>,
    pub member_id_uuid: Seq<char>,
    pub display_name: Seq<char>,
    pub subtitle: Seq<char>,
}

impl View for GroupMemberView {
    type V = MemberLine;

    open spec fn view(&self) -> MemberLine {
        MemberLine {
            member_kind: self.member_kind@,
            member_id_uuid: self.member_id_uuid@,
            display_name: self.display_name@,
            subtitle: self.subtitle@,
        }
    }
}

/// How a member is shown; one that is not known has a placeholder.
pub open spec fn member_line(m: ResolvedMember) -> MemberLine {
    match m {
        ResolvedMember::User { id, person: Some(p) } => MemberLine {
            member_kind: "user"@,
            member_id_uuid: codec::hyphenated(id),
            display_name: p.display_name@,
            subtitle: p.email@,
        },
        ResolvedMember::User { id, person: None } => MemberLine {
            member_kind: "user"@,
            member_id_uuid: codec::hyphenated(id),
            display_name: "user_"@ + codec::hyphenated(id),
            subtitle: "unknown user"@,
        },
        ResolvedMember::Group { id, group: Some(g) } => MemberLine {
            member_kind: "group"@,
            member_id_uuid: codec::hyphenated(id),
            display_name: g.name@,
            subtitle: g.slug@,
        },
        ResolvedMember::Group { id, group: None } => MemberLine {
            member_kind: "group"@,
            member_id_uuid: codec::hyphenated(id),
            display_name: "group_"@ + codec::hyphenated(id),
            subtitle: "unknown group"@,
        },
    }
}

/// How members are shown.
pub open spec fn member_lines(items: Seq<ResolvedMember>) -> Seq<MemberLine> {
    Seq::new(items.len(), |i: int| member_line(items[i]))
}

/// Shows a member of a group.
pub fn group_member_view(m: &ResolvedMember) -> (r: GroupMemberView)
    ensures
        r@ == member_line(*m),
{
    match m {
        ResolvedMember::User { id, person } => {
            let (display_name, subtitle) = match person {
                Some(p) => (p.display_name.clone(), p.email.clone()),
                None => (
                    "user_".to_owned().concat(codec::uuid_text(*id).as_str()),
                    "unknown user".to_owned(),
                ),
            };
            GroupMemberView {
                member_kind: "user".to_owned(),
                member_id_uuid: codec::uuid_text(*id),
                display_name,
                subtitle,
            }
        },
        ResolvedMember::Group { id, group } => {
            let (display_name, subtitle) = match group {
                Some(g) => (g.name.clone(), g.slug.clone()),
                None => (
                    "group_".to_owned().concat(codec::uuid_text(*id).as_str()),
                    "unknown group".to_owned(),
                ),
            };
            GroupMemberView {
                member_kind: "group".to_owned(),
                member_id_uuid: codec::uuid_text(*id),
                display_name,
                subtitle,
            }
        },
    }
}

/// Shows the direct members of a group.
pub fn build_group_member_views(items: &Vec<ResolvedMember>) -> (r: Vec<GroupMemberView>)
    ensures
        text::views(r@) == member_lines(items@),
{
    let mut out: Vec<GroupMemberView> = Vec::new();
    let mut i: usize = 0;
    while i < items.len()
        invariant
            i <= items.len(),
            out.len() == i,
            forall|j: int| 0 <= j < i ==> (#[trigger] out@[j])@ == member_line(items@[j]),
        decreases items.len() - i,
    {
        out.push(group_member_view(&items[i]));
        i += 1;
    }
    proof {
        assert(text::views(out@) =~= member_lines(items@));
    }
    out
}

/// The users among the members of a group.
pub open spec fn user_ids(items: Seq<GroupMember>) -> Seq<u128>
    decreases items.len(),
{
    if items.len() == 0 {
        Seq::empty()
    } else {
        let before = user_ids(items.drop_last());
        match items.last() {
            GroupMember::User(id) => before.push(id),
            GroupMember::Group(_) => before,
        }
    }
}

/// Lists the users who are direct members of a group.
pub fn group_member_user_ids(items: &Vec<GroupMember>) -> (r: Vec<u128>)
    ensures
        r@ == user_ids(items@),
{
    let mut out: Vec<u128> = Vec::new();
    let mut i: usize = 0;
    proof {
        assert(items@.take(0) =~= Seq::<GroupMember>::empty());
    }
    while i < items.len()
        invariant
            i <= items.len(),
            out@ == user_ids(items@.take(i as int)),
        decreases items.len() - i,
    {
        proof {
            assert(items@.take(i + 1).drop_last() =~= items@.take(i as int));
        }
        if let GroupMember::User(id) = items[i] {
            out.push(id);
        }
        i += 1;
    }
    proof {
        assert(items@.take(items@.len() as int) =~= items@);
    }
    out
}

/// Whether the picker offers a user: not a member yet, and found by name or
/// email address where something is searched for.
pub open spec fn is_offered(u: users::User, exclude: Seq<u128>, needle: Seq<char>) -> bool {
    &&& !exclude.contains(u.id)
    &&& needle.len() == 0 || text::occurs_nocase(u.display_name@, needle) || text::occurs_nocase(
        u.email@,
        needle,
    )
}

/// The users whom the picker offers.
pub open spec fn offered(list: Seq<users::User>, exclude: Seq<u128>, needle: Seq<char>) -> Seq<
    users::User,
>
    decreases list.len(),
{
    if list.len() == 0 {
        list
    } else if is_offered(list.last(), exclude, needle) {
        offered(list.drop_last(), exclude, needle).push(list.last())
    } else {
        offered(list.drop_last(), exclude, needle)
    }
}

fn contains_id(ids: &Vec<u128>, id: u128) -> (r: bool)
    ensures
        r == ids@.contains(id),
{
    let mut i: usize = 0;
    while i < ids.len()
        invariant
            i <= ids.len(),
            forall|j: int| 0 <= j < i ==> #[trigger] ids@[j] != id,
        decreases ids.len() - i,
    {
        if ids[i] == id {
            return true;
        }
        i += 1;
    }
    false
}

fn offer(list: Vec<users::User>, exclude: &Vec<u128>, needle: &str) -> (r: Vec<users::User>)
    ensures
        r@ == offered(list@, exclude@, needle@),
{
    let ghost all = list@;
    let mut rest = list;
    let mut r: Vec<users::User> = Vec::new();
    let ghost mut n: int = 0;
    proof {
        assert(all.skip(0) =~= all);
        assert(all.take(0) =~= Seq::<users::User>::empty());
    }
    while rest.len() > 0
        invariant
            0 <= n <= all.len(),
            rest@ == all.skip(n),
            r@ == offered(all.take(n), exclude@, needle@),
        decreases rest.len(),
    {
        let u = rest.remove(0);
        proof {
            assert(rest@ =~= all.skip(n + 1));
            assert(all.take(n + 1).drop_last() =~= all.take(n));
            assert(all.take(n + 1).last() == u);
        }
        if !contains_id(exclude, u.id) && (needle.is_empty() || text::contains_nocase(
            u.display_name.as_str(),
            needle,
        ) || text::contains_nocase(u.email.as_str(), needle)) {
            r.push(u);
        }
        proof {
            n = n + 1;
        }
    }
    proof {
        assert(all.take(n) =~= all);
    }
    r
}

/// The picker offers exactly the users that it was given who are not in the
/// group yet and match the search; so nobody is added twice.
pub proof fn law_picker(
    list: Seq<users::User>,
    members: Seq<GroupMember>,
    needle: Seq<char>,
    u: users::User,
)
    ensures
        offered(list, user_ids(members), needle).contains(u) <==> list.contains(u) && is_offered(
            u,
            user_ids(members),
            needle,
        ),
        members.contains(GroupMember::User(u.id)) ==> !offered(
            list,
            user_ids(members),
            needle,
        ).contains(u),
{
    lemma_offered(list, user_ids(members), needle, u);
    lemma_user_ids(members, u.id);
}

proof fn lemma_user_ids(members: Seq<GroupMember>, id: u128)
    ensures
        members.contains(GroupMember::User(id)) ==> user_ids(members).contains(id),
    decreases members.len(),
{
    if members.contains(GroupMember::User(id)) {
        let i = choose|i: int| 0 <= i < members.len() && members[i] == GroupMember::User(id);
        let rest = members.drop_last();
        let before = user_ids(rest);
        let r = user_ids(members);
        if i < rest.len() {
            assert(rest[i] == GroupMember::User(id));
            lemma_user_ids(rest, id);
            let k = choose|k: int| 0 <= k < before.len() && before[k] == id;
            assert(r[k] == id);
        } else {
            assert(r[r.len() - 1] == id);
        }
    }
}

proof fn lemma_offered(
    list: Seq<users::User>,
    exclude: Seq<u128>,
    needle: Seq<char>,
    u: users::User,
)
    ensures
        offered(list, exclude, needle).contains(u) <==> list.contains(u) && is_offered(
            u,
            exclude,
            needle,
        ),
    decreases list.len(),
{
    let r = offered(list, exclude, needle);
    if list.len() > 0 {
        let rest = list.drop_last();
        let before = offered(rest, exclude, needle);
        lemma_offered(rest, exclude, needle, u);
        if r.contains(u) {
            let k = choose|k: int| 0 <= k < r.len() && r[k] == u;
            if k < before.len() {
                assert(before[k] == u);
                let i = choose|i: int| 0 <= i < rest.len() && rest[i] == u;
                assert(list[i] == u);
            } else {
                assert(list[list.len() - 1] == u);
            }
        }
        if list.contains(u) && is_offered(u, exclude, needle) {
            let i = choose|i: int| 0 <= i < list.len() && list[i] == u;
            if i < rest.len() {
                assert(rest[i] == u);
                let k = choose|k: int| 0 <= k < before.len() && before[k] == u;
                assert(r[k] == u);
            } else {
                assert(r[r.len() - 1] == u);
            }
        }
    }
}

// ---------------------------------------------------------------------------
// The group page
// ---------------------------------------------------------------------------

/// An assignment of a role to a group, with what the engines know of the role
/// and the organization.
pub struct GroupAssignment {
    pub id: u128,
    pub role_name: Option<String>,
    pub scope: access::Scope,
    pub org_slug: Option<String>,
}

/// A role assignment on the group page.
pub struct GroupRoleAssignmentView {
    /// Assignment UUID.
    pub assignment_id: String,
    /// Role name, or "<unknown role>".
    pub role_label: String,
    /// "Realm" or "Org: <slug>".
    pub scope_label: String,
}

impl View for GroupRoleAssignmentView {
    type V = (Seq<char>, Seq<char>, Seq<char>);

    open spec fn view(&self) -> (Seq<char>, Seq<char>, Seq<char>) {
        (self.assignment_id@, self.role_label@, self.scope_label@)
    }
}

/// How an assignment is shown: its UUID, the role and the scope.
pub open spec fn assignment_line(a: GroupAssignment) -> (Seq<char>, Seq<char>, Seq<char>) {
    (
        codec::hyphenated(a.id),
        sessions::text_or(a.role_name, "<unknown role>"@),
        match a.scope {
            access::Scope::Realm => "Realm"@,
            access::Scope::Org(id) => "Org: "@ + match a.org_slug {
                Some(slug) => slug@,
                None => codec::hyphenated(id),
            },
        },
    )
}

/// How assignments are shown.
pub open spec fn assignment_lines(items: Seq<GroupAssignment>) -> Seq<
    (Seq<char>, Seq<char>, Seq<char>),
> {
    Seq::new(items.len(), |i: int| assignment_line(items[i]))
}

fn assignment_views(items: &Vec<GroupAssignment>) -> (r: Vec<GroupRoleAssignmentView>)
    ensures
        text::views(r@) == assignment_lines(items@),
{
    let mut out: Vec<GroupRoleAssignmentView> = Vec::new();
    let mut i: usize = 0;
    while i < items.len()
        invariant
            i <= items.len(),
            out.len() == i,
            forall|j: int| 0 <= j < i ==> (#[trigger] out@[j])@ == assignment_line(items@[j]),
        decreases items.len() - i,
    {
        let a = &items[i];
        let scope_label = match a.scope {
            access::Scope::Realm => "Realm".to_owned(),
            access::Scope::Org(id) => {
                let name = match &a.org_slug {
                    Some(slug) => slug.clone(),
                    None => codec::uuid_text(id),
                };
                "Org: ".to_owned().concat(name.as_str())
            },
        };
        out.push(
            GroupRoleAssignmentView {
                assignment_id: codec::uuid_text(a.id),
                role_label: sessions::or_default(&a.role_name, "<unknown role>"),
                scope_label,
            },
        );
        i += 1;
    }
    proof {
        assert(text::views(out@) =~= assignment_lines(items@));
    }
    out
}

/// Query parameters of the group page.
pub struct GroupDetailParams {
    /// The tab to open.
    pub tab: Option<String>,
}

/// The tab that a query opens; what names no tab opens the overview.
pub open spec fn opened_tab(tab: Option<Seq<char>>) -> Seq<char> {
    if tab == Some("members"@) {
        "members"@
    } else if tab == Some("roles"@) {
        "roles"@
    } else if tab == Some("danger"@) {
        "danger"@
    } else {
        "overview"@
    }
}

fn open_tab(tab: &Option<String>) -> (r: String)
    ensures
        r@ == opened_tab(text::opt_text(*tab)),
{
    match tab {
        None => "overview".to_owned(),
        Some(t) => if text::same(t.as_str(), "members") {
            "members".to_owned()
        } else if text::same(t.as_str(), "roles") {
            "roles".to_owned()
        } else if text::same(t.as_str(), "danger") {
            "danger".to_owned()
        } else {
            "overview".to_owned()
        },
    }
}

/// What the engines tell of a group; empty where they could not tell.
pub struct GroupRecords {
    /// The direct members.
    pub members: Vec<ResolvedMember>,
    /// The direct members whom the picker leaves out.
    pub known: Vec<GroupMember>,
    pub assignments: Vec<GroupAssignment>,
    /// The first page of the users of the realm.
    pub users: Result<sessions::Page<users::User>, web::EngineError>,
    pub roles: Vec<access::Role>,
    pub orgs: Vec<access::OrgSummary>,
}

/// The group page.
pub struct GroupDetailTemplate {
    pub group: Group,
    pub realm_name: String,
    pub group_id: String,
    pub members: Vec<GroupMemberView>,
    pub member_count: usize,
    pub role_assignments: Vec<GroupRoleAssignmentView>,
    pub role_count: usize,
    pub available_roles: Vec<access::AvailableRole>,
    pub available_orgs: Vec<access::AvailableOrg>,
    pub users: Vec<users::User>,
    pub query: String,
    pub next_cursor: Option<String>,
    pub active_subtab: String,
    pub active_tab: String,
    pub chrome: web::Chrome,
}

/// Whether a picker shows those of the users found who can be added; nobody
/// where the users could not be read.
pub open spec fn picks(
    shown: Seq<users::User>,
    next_cursor: Option<String>,
    found: Result<sessions::Page<users::User>, web::EngineError>,
    known: Seq<GroupMember>,
    needle: Seq<char>,
) -> bool {
    match found {
        Ok(page) => {
            &&& shown == offered(page.items@, user_ids(known), needle)
            &&& needle.len() == 0 ==> next_cursor == page.next_cursor
            &&& needle.len() > 0 ==> next_cursor is None
        },
        Err(_) => shown.len() == 0 && next_cursor is None,
    }
}

fn pick(
    found: Result<sessions::Page<users::User>, web::EngineError>,
    known: &Vec<GroupMember>,
    needle: &str,
) -> (r: (Vec<users::User>, Option<String>))
    ensures
        picks(r.0@, r.1, found, known@, needle@),
{
    match found {
        Err(_) => (Vec::new(), None),
        Ok(page) => {
            let exclude = group_member_user_ids(known);
            let next_cursor = if needle.is_empty() {
                page.next_cursor
            } else {
                None
            };
            (offer(page.items, &exclude, needle), next_cursor)
        },
    }
}

/// Reads which group a page is about.
pub fn group_request(gid: &str) -> (r: Result<u128, web::Reply<()>>)
    ensures
        web::names_one(r, true, gid@, "Group not found"@),
{
    web::require_one(true, gid, "Group not found")
}

/// Shows a group.
pub fn admin_group_detail(
    site: &web::Site,
    session: &web::UiSession,
    target: &web::TargetRealm,
    params: &GroupDetailParams,
    found: Result<Option<Group>, web::EngineError>,
    records: GroupRecords,
) -> (r: web::Reply<GroupDetailTemplate>)
    ensures
        match found {
            Err(_) => r is ServerError,
            Ok(None) => r.not_found("Group not found"@),
            Ok(Some(group)) => r is Page && {
                let p = r->Page_0;
                &&& p.group == group
                &&& p.realm_name@ == target.name@
                &&& p.group_id@ == codec::hyphenated(group.id)
                &&& text::views(p.members@) == member_lines(records.members@)
                &&& p.member_count == records.members@.len()
                &&& text::views(p.role_assignments@) == assignment_lines(records.assignments@)
                &&& p.role_count == records.assignments@.len()
                &&& text::views(p.available_roles@) == access::role_choices(records.roles@)
                &&& text::views(p.available_orgs@) == access::org_choices(records.orgs@)
                &&& picks(
                    p.users@,
                    p.next_cursor,
                    records.users,
                    records.known@,
                    Seq::empty(),
                )
                &&& p.query@.len() == 0
                &&& p.active_subtab@ == opened_tab(text::opt_text(params.tab))
                &&& p.active_tab@ == "groups"@
                &&& p.chrome.is_admin_page(*site, *session, "realm-workspace"@)
                &&& p.chrome.flash is None
            },
        },
{
    let group = match found {
        Err(_) => return web::Reply::ServerError,
        Ok(None) => return web::Reply::missing("Group not found"),
        Ok(Some(group)) => group,
    };
    proof {
        reveal_strlit("");
        assert(""@ =~= Seq::<char>::empty());
    }
    let shown = build_group_member_views(&records.members);
    let roles = assignment_views(&records.assignments);
    let (users, next_cursor) = pick(records.users, &records.known, "");
    let member_count: usize = shown.len();
    let role_count: usize = roles.len();
    proof {
        assert(text::views(shown@).len() == shown@.len());
        assert(text::views(roles@).len() == roles@.len());
    }
    web::Reply::Page(
        GroupDetailTemplate {
            realm_name: target.name.clone(),
            group_id: codec::uuid_text(group.id),
            members: shown,
            member_count,
            role_assignments: roles,
            role_count,
            available_roles: access::build_realm_available_roles(&records.roles),
            available_orgs: access::build_available_orgs(&records.orgs),
            users,
            query: String::new(),
            next_cursor,
            active_subtab: open_tab(&params.tab),
            active_tab: "groups".to_owned(),
            group,
            chrome: web::Chrome::admin(site, session, "realm-workspace"),
        },
    )
}

// ---------------------------------------------------------------------------
// Editing
// ---------------------------------------------------------------------------

/// The page that edits a group.
pub struct GroupEditTemplate {
    pub group: Group,
    pub realm_name: String,
    pub error: Option<String>,
    pub form_name: String,
    pub form_slug: String,
    pub form_description: String,
    pub active_tab: String,
    pub chrome: web::Chrome,
}

impl GroupEditTemplate {
    /// Whether the page shows a form about a group, and an error.
    pub open spec fn shows(
        self,
        site: web::Site,
        session: web::UiSession,
        target: web::TargetRealm,
        group: Group,
        error: Option<Seq<char>>,
        name: Seq<char>,
        slug: Seq<char>,
        description: Seq<char>,
    ) -> bool {
        &&& self.group == group
        &&& self.realm_name@ == target.name@
        &&& text::opt_text(self.error) == error
        &&& self.form_name@ == name
        &&& self.form_slug@ == slug
        &&& self.form_description@ == description
        &&& self.active_tab@ == "groups"@
        &&& self.chrome.is_admin_page(site, session, "realm-workspace"@)
        &&& self.chrome.flash is None
    }
}

/// Shows the form, filled in with what the group is.
pub fn admin_group_edit_form(
    site: &web::Site,
    session: &web::UiSession,
    target: &web::TargetRealm,
    found: Result<Option<Group>, web::EngineError>,
) -> (r: web::Reply<GroupEditTemplate>)
    ensures
        match found {
            Err(_) => r is ServerError,
            Ok(None) => r.not_found("Group not found"@),
            Ok(Some(group)) => r is Page && r->Page_0.shows(
                *site,
                *session,
                *target,
                group,
                None,
                group.name@,
                group.slug@,
                access::text_or_empty(group.description),
            ),
        },
{
    match found {
        Err(_) => web::Reply::ServerError,
        Ok(None) => web::Reply::missing("Group not found"),
        Ok(Some(group)) => web::Reply::Page(
            GroupEditTemplate {
                realm_name: target.name.clone(),
                error: None,
                form_name: group.name.clone(),
                form_slug: group.slug.clone(),
                form_description: access::or_empty(&group.description),
                active_tab: "groups".to_owned(),
                group,
                chrome: web::Chrome::admin(site, session, "realm-workspace"),
            },
        ),
    }
}

/// The form that edits a group.
pub struct UpdateGroupForm {
    pub name: String,
    pub slug: String,
    pub description: String,
    pub csrf: String,
}

/// What the engine is asked to change; an absent description is taken away.
pub struct UpdateGroupRequest {
    pub group_id: u128,
    pub name: String,
    pub slug: String,
    pub description: Option<String>,
}

/// The edit form, submitted as it was shown, keeps the description of the group,
/// where that is absent or not blank.
pub proof fn law_unchanged_group(group: Group)
    requires
        group.description matches Some(d) ==> text::trimmed(d@).len() > 0,
    ensures
        orgs::filled_in(access::text_or_empty(group.description)) == text::opt_text(
            group.description,
        ),
{
    if group.description is None {
        assert(text::trimmed(Seq::<char>::empty()).len() == 0);
    }
}

/// Reads what to change of which group.
pub fn admin_group_edit_submit_request(csrf_ok: bool, gid: &str, form: &UpdateGroupForm) -> (r:
    Result<UpdateGroupRequest, web::Reply<GroupEditTemplate>>)
    ensures
        !csrf_ok ==> r is Err && r->Err_0 is Forbidden,
        csrf_ok ==> match codec::uuid_of(gid@) {
            None => r is Err && r->Err_0.not_found("Group not found"@),
            Some(id) => r is Ok && {
                let q = r->Ok_0;
                &&& q.group_id == id
                &&& q.name@ == form.name@
                &&& q.slug@ == form.slug@
                &&& text::opt_text(q.description) == orgs::filled_in(form.description@)
            },
        },
{
    let group_id: u128 = match web::require_one(csrf_ok, gid, "Group not found") {
        Ok(id) => id,
        Err(reply) => return Err(reply),
    };
    Ok(
        UpdateGroupRequest {
            group_id,
            name: form.name.clone(),
            slug: form.slug.clone(),
            description: orgs::filled(form.description.as_str()),
        },
    )
}

/// Answers after the engine tried to change a group; `group` is read again
/// where the form has to be shown again.
pub fn admin_group_edit_submit(
    site: &web::Site,
    session: &web::UiSession,
    target: &web::TargetRealm,
    group_id: u128,
    form: &UpdateGroupForm,
    updated: Result<(), web::EngineError>,
    group: Option<Group>,
) -> (r: web::Outcome<GroupEditTemplate>)
    ensures
        match updated {
            Ok(_) => {
                &&& r.log() == seq![
                    group_event(
                        *session,
                        target.id,
                        web::AuditAction::GroupUpdated,
                        group_id,
                        web::via_ui(),
                    ),
                ]
                &&& r.reply.redirects(group_address(*target, group_id, ""@))
            },
            Err(e) => r.is_silent() && match group {
                None => r.reply.not_found("Group not found"@),
                Some(g) => r.reply is Page && r.reply->Page_0.shows(
                    *site,
                    *session,
                    *target,
                    g,
                    Some(group_error(e, "Unable to update group: "@)),
                    form.name@,
                    form.slug@,
                    form.description@,
                ),
            },
        },
{
    match updated {
        Ok(_) => {
            let event = audit::audit_group_event(session, target.id, group_id, "update", &None);
            proof {
                lemma_group_operations();
            }
            web::Outcome::noted(web::Reply::Redirect(group_url(target, group_id, "")), event)
        },
        Err(e) => match group {
            None => web::Outcome::silent(web::Reply::missing("Group not found")),
            Some(group) => web::Outcome::silent(
                web::Reply::Page(
                    GroupEditTemplate {
                        group,
                        realm_name: target.name.clone(),
                        error: Some(group_message(&e, "Unable to update group: ")),
                        form_name: form.name.clone(),
                        form_slug: form.slug.clone(),
                        form_description: form.description.clone(),
                        active_tab: "groups".to_owned(),
                        chrome: web::Chrome::admin(site, session, "realm-workspace"),
                    },
                ),
            ),
        },
    }
}

// ---------------------------------------------------------------------------
// Deletion
// ---------------------------------------------------------------------------

/// Reads which group to delete.
pub fn admin_group_delete_request(csrf_ok: bool, gid: &str) -> (r: Result<u128, web::Reply<()>>)
    ensures
        web::names_one(r, csrf_ok, gid@, "Group not found"@),
{
    web::require_one(csrf_ok, gid, "Group not found")
}

/// Answers after the engine tried to delete a group.
pub fn admin_group_delete(
    session: &web::UiSession,
    target: &web::TargetRealm,
    group_id: u128,
    deleted: Result<(), web::EngineError>,
) -> (r: web::Outcome<()>)
    ensures
        match deleted {
            Ok(_) => {
                &&& r.log() == seq![
                    group_event(
                        *session,
                        target.id,
                        web::AuditAction::GroupDeleted,
                        group_id,
                        web::via_ui(),
                    ),
                ]
                &&& r.reply.redirects("/ui/admin/realms/"@ + target.name@ + "/groups"@)
            },
            Err(e) => r.is_silent() && r.reply.flashes(
                group_address(*target, group_id, ""@),
                "Unable to delete group: "@ + e.text@,
                web::FlashKind::Error,
            ),
        },
{
    match deleted {
        Ok(_) => {
            let event = audit::audit_group_event(session, target.id, group_id, "delete", &None);
            proof {
                lemma_group_operations();
            }
            let url = "/ui/admin/realms/".to_owned().concat(target.name.as_str()).concat("/groups");
            web::Outcome::noted(web::Reply::Redirect(url), event)
        },
        Err(e) => {
            let message = "Unable to delete group: ".to_owned().concat(e.text.as_str());
            web::Outcome::silent(
                web::Reply::flash(
                    group_url(target, group_id, "").as_str(),
                    message.as_str(),
                    web::FlashKind::Error,
                ),
            )
        },
    }
}

// ---------------------------------------------------------------------------
// Adding and removing members
// ---------------------------------------------------------------------------

/// The rows of the member picker.
pub struct GroupMemberPickerRowsTemplate {
    pub realm_name: String,
    pub group_id: String,
    pub users: Vec<users::User>,
    pub query: String,
    pub next_cursor: Option<String>,
    pub csrf: Option<String>,
}

/// What the picker asks the engine for; `limit` is how many users the engine
/// gives at most.
pub enum PickerQuery {
    /// The users to search among.
    All { limit: usize },
    /// A page of users.
    Browse { cursor: Option<String>, limit: usize },
}

/// Decides what the picker asks the engine for: the users to search among, else
/// a page.
pub fn admin_group_member_picker_query(params: &org_members::MemberPickerParams) -> (r: PickerQuery)
    ensures
        match r {
            PickerQuery::All { limit } => text::trimmed(params.q@).len() > 0 && limit
                == users::SEARCH_WINDOW,
            PickerQuery::Browse { cursor, limit } => text::trimmed(params.q@).len() == 0
                && text::opt_text(cursor) == text::opt_text(params.cursor) && limit
                == users::PAGE_SIZE,
        },
{
    if text::trim(params.q.as_str()).as_str().is_empty() {
        PickerQuery::Browse { cursor: text::clone_opt(&params.cursor), limit: users::PAGE_SIZE }
    } else {
        PickerQuery::All { limit: users::SEARCH_WINDOW }
    }
}

/// Shows the users who can be added; `known` are the direct members.
pub fn admin_group_member_picker(
    session: &web::UiSession,
    target: &web::TargetRealm,
    group_id: u128,
    params: &org_members::MemberPickerParams,
    known: &Vec<GroupMember>,
    found: Result<sessions::Page<users::User>, web::EngineError>,
) -> (r: web::Reply<GroupMemberPickerRowsTemplate>)
    ensures
        r is Page && {
            let p = r->Page_0;
            &&& picks(p.users@, p.next_cursor, found, known@, text::trimmed(params.q@))
            &&& p.realm_name@ == target.name@
            &&& p.group_id@ == codec::hyphenated(group_id)
            &&& p.query@ == text::trimmed(params.q@)
            &&& text::opt_text(p.csrf) == text::opt_text(session.csrf)
        },
{
    let query = text::trim(params.q.as_str());
    let (users, next_cursor) = pick(found, known, query.as_str());
    web::Reply::Page(
        GroupMemberPickerRowsTemplate {
            realm_name: target.name.clone(),
            group_id: codec::uuid_text(group_id),
            users,
            query,
            next_cursor,
            csrf: text::clone_opt(&session.csrf),
        },
    )
}

/// The form that adds a member.
pub struct AddGroupMemberForm {
    /// "user" or "group".
    pub member_kind: String,
    /// UUID of the user or group.
    pub member_id: String,
    pub csrf: String,
}

/// Reads what to add to which group; what is not called a group is a user.
pub fn admin_group_member_add_request(
    csrf_ok: bool,
    target: &web::TargetRealm,
    gid: &str,
    form: &AddGroupMemberForm,
) -> (r: Result<(u128, GroupMember), web::Reply<()>>)
    ensures
        !csrf_ok ==> r is Err && r->Err_0 is Forbidden,
        csrf_ok ==> match codec::uuid_of(gid@) {
            None => r is Err && r->Err_0.not_found("Group not found"@),
            Some(group_id) => match codec::uuid_of(form.member_id@) {
                None => r is Err && r->Err_0.flashes(
                    group_address(*target, group_id, "?tab=members"@),
                    "Invalid member ID."@,
                    web::FlashKind::Error,
                ),
                Some(id) => r is Ok && r->Ok_0 == (
                    group_id,
                    if form.member_kind@ == "group"@ {
                        GroupMember::Group(id)
                    } else {
                        GroupMember::User(id)
                    },
                ),
            },
        },
{
    let group_id: u128 = match web::require_one(csrf_ok, gid, "Group not found") {
        Ok(id) => id,
        Err(reply) => return Err(reply),
    };
    match codec::parse_uuid(form.member_id.as_str()) {
        None => Err(
            web::Reply::flash(
                group_url(target, group_id, "?tab=members").as_str(),
                "Invalid member ID.",
                web::FlashKind::Error,
            ),
        ),
        Some(id) => if text::same(form.member_kind.as_str(), "group") {
            Ok((group_id, GroupMember::Group(id)))
        } else {
            Ok((group_id, GroupMember::User(id)))
        },
    }
}

/// Answers after the engine tried to add a member.
pub fn admin_group_member_add(
    session: &web::UiSession,
    target: &web::TargetRealm,
    group_id: u128,
    form: &AddGroupMemberForm,
    added: Result<(), web::EngineError>,
) -> (r: web::Outcome<()>)
    ensures
        match added {
            Ok(_) => {
                &&& r.log() == seq![
                    group_event(
                        *session,
                        target.id,
                        web::AuditAction::GroupMemberAdded,
                        group_id,
                        audit::member_metadata(form.member_kind@, form.member_id@),
                    ),
                ]
                &&& r.reply.flashes(
                    group_address(*target, group_id, "?tab=members"@),
                    "Member added."@,
                    web::FlashKind::Success,
                )
            },
            Err(e) => r.is_silent() && r.reply.flashes(
                group_address(*target, group_id, "?tab=members"@),
                "Unable to add member: "@ + e.text@,
                web::FlashKind::Error,
            ),
        },
{
    let url = group_url(target, group_id, "?tab=members");
    match added {
        Ok(_) => {
            let member = Some((form.member_kind.clone(), form.member_id.clone()));
            let event = audit::audit_group_event(
                session,
                target.id,
                group_id,
                "member_add",
                &member,
            );
            proof {
                lemma_group_operations();
            }
            web::Outcome::noted(
                web::Reply::flash(url.as_str(), "Member added.", web::FlashKind::Success),
                event,
            )
        },
        Err(e) => {
            let message = "Unable to add member: ".to_owned().concat(e.text.as_str());
            web::Outcome::silent(
                web::Reply::flash(url.as_str(), message.as_str(), web::FlashKind::Error),
            )
        },
    }
}

/// The row of one member.
pub struct GroupMemberRowTemplate {
    pub realm_name: String,
    pub group_id: String,
    pub m: GroupMemberView,
    pub csrf: Option<String>,
}

/// A member row with the `HX-Trigger` header that shows a message.
pub struct GroupMemberRow {
    pub row: GroupMemberRowTemplate,
    pub hx_trigger: String,
}

/// Shows the row of a member again, with a message.
pub fn render_group_member_row_with_toast(
    session: &web::UiSession,
    target: &web::TargetRealm,
    group_id: u128,
    member: &ResolvedMember,
    message: &str,
    kind: web::FlashKind,
) -> (r: GroupMemberRow)
    ensures
        r.row.realm_name@ == target.name@,
        r.row.group_id@ == codec::hyphenated(group_id),
        r.row.m@ == member_line(*member),
        text::opt_text(r.row.csrf) == text::opt_text(session.csrf),
        r.hx_trigger@ == web::toast_json(message@, kind),
{
    GroupMemberRow {
        row: GroupMemberRowTemplate {
            realm_name: target.name.clone(),
            group_id: codec::uuid_text(group_id),
            m: group_member_view(member),
            csrf: text::clone_opt(&session.csrf),
        },
        hx_trigger: web::toast_header(message, kind),
    }
}

/// Reads what to remove from which group.
pub fn admin_group_member_remove_request(csrf_ok: bool, gid: &str, kind: &str, mid: &str) -> (r:
    Result<(u128, GroupMember), web::Reply<GroupMemberRow>>)
    ensures
        !csrf_ok ==> r is Err && r->Err_0 is Forbidden,
        csrf_ok ==> match (codec::uuid_of(gid@), codec::uuid_of(mid@)) {
            (None, _) => r is Err && r->Err_0.not_found("Group not found"@),
            (Some(_), None) => r is Err && r->Err_0.not_found("Member not found"@),
            (Some(group_id), Some(id)) => if kind@ == "group"@ {
                r is Ok && r->Ok_0 == (group_id, GroupMember::Group(id))
            } else if kind@ == "user"@ {
                r is Ok && r->Ok_0 == (group_id, GroupMember::User(id))
            } else {
                r is Err && r->Err_0.not_found("Unknown member kind"@)
            },
        },
{
    let (group_id, id) = match web::require_two(
        csrf_ok,
        gid,
        "Group not found",
        mid,
        "Member not found",
    ) {
        Ok(ids) => ids,
        Err(reply) => return Err(reply),
    };
    if text::same(kind, "group") {
        Ok((group_id, GroupMember::Group(id)))
    } else if text::same(kind, "user") {
        Ok((group_id, GroupMember::User(id)))
    } else {
        Err(web::Reply::missing("Unknown member kind"))
    }
}

/// Answers after the engine tried to remove a member. `kind` and `mid` are as
/// the request wrote them; `member` is read where HTMX has to put the row back.
pub fn admin_group_member_remove(
    session: &web::UiSession,
    target: &web::TargetRealm,
    group_id: u128,
    kind: &str,
    mid: &str,
    is_htmx: bool,
    removed: Result<(), web::EngineError>,
    member: &ResolvedMember,
) -> (r: web::Outcome<GroupMemberRow>)
    ensures
        match removed {
            Ok(_) => {
                &&& r.log() == seq![
                    group_event(
                        *session,
                        target.id,
                        web::AuditAction::GroupMemberRemoved,
                        group_id,
                        audit::member_metadata(kind@, mid@),
                    ),
                ]
                &&& is_htmx ==> r.reply.toasts("Member removed"@, web::FlashKind::Success)
                &&& !is_htmx ==> r.reply.flashes(
                    group_address(*target, group_id, "?tab=members"@),
                    "Member removed."@,
                    web::FlashKind::Success,
                )
            },
            Err(e) => {
                let message = "Unable to remove member: "@ + e.text@;
                &&& r.is_silent()
                &&& is_htmx ==> r.reply is Page && {
                    let p = r.reply->Page_0;
                    &&& p.row.realm_name@ == target.name@
                    &&& p.row.group_id@ == codec::hyphenated(group_id)
                    &&& p.row.m@ == member_line(*member)
                    &&& text::opt_text(p.row.csrf) == text::opt_text(session.csrf)
                    &&& p.hx_trigger@ == web::toast_json(message, web::FlashKind::Error)
                }
                &&& !is_htmx ==> r.reply.flashes(
                    group_address(*target, group_id, "?tab=members"@),
                    message,
                    web::FlashKind::Error,
                )
            },
        },
{
    let url = group_url(target, group_id, "?tab=members");
    match removed {
        Ok(_) => {
            let named = Some((kind.to_owned(), mid.to_owned()));
            let event = audit::audit_group_event(
                session,
                target.id,
                group_id,
                "member_remove",
                &named,
            );
            proof {
                lemma_group_operations();
            }
            let reply = if is_htmx {
                web::Reply::toast("Member removed", web::FlashKind::Success)
            } else {
                web::Reply::flash(url.as_str(), "Member removed.", web::FlashKind::Success)
            };
            web::Outcome::noted(reply, event)
        },
        Err(e) => {
            let message = "Unable to remove member: ".to_owned().concat(e.text.as_str());
            let reply = if is_htmx {
                web::Reply::Page(
                    render_group_member_row_with_toast(
                        session,
                        target,
                        group_id,
                        member,
                        message.as_str(),
                        web::FlashKind::Error,
                    ),
                )
            } else {
                web::Reply::flash(url.as_str(), message.as_str(), web::FlashKind::Error)
            };
            web::Outcome::silent(reply)
        },
    }
}

// ---------------------------------------------------------------------------
// Roles
// ---------------------------------------------------------------------------

/// The form that assigns a role to a group.
pub struct GroupAssignRoleForm {
    pub csrf: String,
    /// Role UUID.
    pub role_id: String,
    /// "realm" or "org:<uuid>".
    pub scope: String,
}

/// What the engine is asked to assign to a group.
#[derive(Clone, Copy, PartialEq, Eq, Structural)]
pub struct GroupAssignRequest {
    pub group_id: u128,
    pub role_id: u128,
    pub scope: access::Scope,
    pub assigned_by: u128,
}

/// Reads which role to assign to which group, where.
pub fn admin_group_role_assign_request(
    csrf_ok: bool,
    session: &web::UiSession,
    target: &web::TargetRealm,
    gid: &str,
    form: &GroupAssignRoleForm,
) -> (r: Result<GroupAssignRequest, web::Reply<()>>)
    ensures
        !csrf_ok ==> r is Err && r->Err_0 is Forbidden,
        csrf_ok ==> match codec::uuid_of(gid@) {
            None => r is Err && r->Err_0.not_found("Group not found"@),
            Some(group_id) => match codec::uuid_of(form.role_id@) {
                None => r is Err && r->Err_0.flashes(
                    group_address(*target, group_id, "?tab=roles"@),
                    "Invalid role ID."@,
                    web::FlashKind::Error,
                ),
                Some(role_id) => match access::scope_meant(form.scope@, access::uuid_reading()) {
                    Err(_) => r is Err && r->Err_0.flashes(
                        group_address(*target, group_id, "?tab=roles"@),
                        "Invalid assignment scope."@,
                        web::FlashKind::Error,
                    ),
                    Ok(scope) => r is Ok && r->Ok_0 == (GroupAssignRequest {
                        group_id,
                        role_id,
                        scope,
                        assigned_by: session.user_id,
                    }),
                },
            },
        },
{
    let group_id: u128 = match web::require_one(csrf_ok, gid, "Group not found") {
        Ok(id) => id,
        Err(reply) => return Err(reply),
    };
    let url = group_url(target, group_id, "?tab=roles");
    let role_id: u128 = match codec::parse_uuid(form.role_id.as_str()) {
        Some(id) => id,
        None => return Err(
            web::Reply::flash(url.as_str(), "Invalid role ID.", web::FlashKind::Error),
        ),
    };
    match access::parse_rbac_scope(form.scope.as_str()) {
        Ok(scope) => Ok(
            GroupAssignRequest { group_id, role_id, scope, assigned_by: session.user_id },
        ),
        Err(_) => Err(
            web::Reply::flash(url.as_str(), "Invalid assignment scope.", web::FlashKind::Error),
        ),
    }
}

/// Answers after the engine tried to assign a role to a group.
pub fn admin_group_role_assign(
    session: &web::UiSession,
    target: &web::TargetRealm,
    group_id: u128,
    form: &GroupAssignRoleForm,
    assigned: Result<(), web::EngineError>,
) -> (r: web::Outcome<()>)
    ensures
        match assigned {
            Ok(_) => {
                &&& r.log() == seq![
                    audit::group_role_event(
                        *session,
                        target.id,
                        group_id,
                        true,
                        form.role_id@,
                    ),
                ]
                &&& r.reply.flashes(
                    group_address(*target, group_id, "?tab=roles"@),
                    "Role assigned."@,
                    web::FlashKind::Success,
                )
            },
            Err(e) => r.is_silent() && r.reply.flashes(
                group_address(*target, group_id, "?tab=roles"@),
                "Unable to assign role: "@ + e.text@,
                web::FlashKind::Error,
            ),
        },
{
    let url = group_url(target, group_id, "?tab=roles");
    match assigned {
        Ok(_) => {
            let event = audit::audit_group_role_event(
                session,
                target.id,
                group_id,
                true,
                form.role_id.as_str(),
            );
            web::Outcome::logged(
                web::Reply::flash(url.as_str(), "Role assigned.", web::FlashKind::Success),
                event,
            )
        },
        Err(e) => {
            let message = "Unable to assign role: ".to_owned().concat(e.text.as_str());
            web::Outcome::silent(
                web::Reply::flash(url.as_str(), message.as_str(), web::FlashKind::Error),
            )
        },
    }
}

/// Reads which assignment to take back from which group.
pub fn admin_group_role_unassign_request(csrf_ok: bool, gid: &str, aid: &str) -> (r: Result<
    (u128, u128),
    web::Reply<()>,
>)
    ensures
        web::names_two(r, csrf_ok, gid@, "Group not found"@, aid@, "Assignment not found"@),
{
    web::require_two(csrf_ok, gid, "Group not found", aid, "Assignment not found")
}

/// Answers after the engine tried to take a role back from a group. `aid` is
/// the assignment as the request wrote it.
pub fn admin_group_role_unassign(
    session: &web::UiSession,
    target: &web::TargetRealm,
    group_id: u128,
    aid: &str,
    unassigned: Result<(), web::EngineError>,
) -> (r: web::Outcome<()>)
    ensures
        match unassigned {
            Ok(_) => {
                &&& r.log() == seq![
                    audit::group_role_event(*session, target.id, group_id, false, aid@),
                ]
                &&& r.reply.flashes(
                    group_address(*target, group_id, "?tab=roles"@),
                    "Role removed."@,
                    web::FlashKind::Success,
                )
            },
            Err(e) => r.is_silent() && r.reply.flashes(
                group_address(*target, group_id, "?tab=roles"@),
                "Unable to remove role: "@ + e.text@,
                web::FlashKind::Error,
            ),
        },
{
    let url = group_url(target, group_id, "?tab=roles");
    match unassigned {
        Ok(_) => {
            let event = audit::audit_group_role_event(session, target.id, group_id, false, aid);
            web::Outcome::logged(
                web::Reply::flash(url.as_str(), "Role removed.", web::FlashKind::Success),
                event,
            )
        },
        Err(e) => {
            let message = "Unable to remove role: ".to_owned().concat(e.text.as_str());
            web::Outcome::silent(
                web::Reply::flash(url.as_str(), message.as_str(), web::FlashKind::Error),
            )
        },
    }
}

/// What is seen of a row is what it holds, each part under its own name.
pub proof fn law_rows_seen(a: GroupMemberView, b: GroupRoleAssignmentView)
    ensures
        a@.member_kind == a.member_kind@,
        a@.member_id_uuid == a.member_id_uuid@,
        a@.display_name == a.display_name@,
        a@.subtitle == a.subtitle@,
        b@.0 == b.assignment_id@,
        b@.1 == b.role_label@,
        b@.2 == b.scope_label@,
{
}

/// Where the page shows a form as it is filled in, and an error: each part of
/// what that says.
pub proof fn law_group_new_template_shows(
    page: GroupNewTemplate,
    site: web::Site,
    session: web::UiSession,
    target: web::TargetRealm,
    error: Option<Seq<char>>,
    name: Seq<char>,
    slug: Seq<char>,
    description: Seq<char>,
)
    requires
        page.shows(site, session, target, error, name, slug, description),
    ensures
        text::opt_text(page.error) == error,
        page.realm_name@ == target.name@,
        page.form_name@ == name,
        page.form_slug@ == slug,
        page.form_description@ == description,
        page.active_tab@ == "groups"@,
        page.chrome.is_admin_page(site, session, "realm-workspace"@),
        page.chrome.flash is None,
{
}

/// The picker offers exactly those who are not members yet and whose name or
/// email address holds what is searched for.
pub proof fn law_is_offered(u: users::User, exclude: Seq<u128>, needle: Seq<char>)
    ensures
        is_offered(u, exclude, needle) <==> !exclude.contains(u.id) && (needle.len() == 0
            || text::occurs_nocase(u.display_name@, needle) || text::occurs_nocase(
            u.email@,
            needle,
        )),
{
}

/// Where the page shows a form about a group, and an error: each part of what
/// that says.
pub proof fn law_group_edit_template_shows(
    page: GroupEditTemplate,
    site: web::Site,
    session: web::UiSession,
    target: web::TargetRealm,
    group: Group,
    error: Option<Seq<char>>,
    name: Seq<char>,
    slug: Seq<char>,
    description: Seq<char>,
)
    requires
        page.shows(site, session, target, group, error, name, slug, description),
    ensures
        page.group == group,
        page.realm_name@ == target.name@,
        text::opt_text(page.error) == error,
        page.form_name@ == name,
        page.form_slug@ == slug,
        page.form_description@ == description,
        page.active_tab@ == "groups"@,
        page.chrome.is_admin_page(site, session, "realm-workspace"@),
        page.chrome.flash is None,
{
}

/// One for each, in order: how members are shown.
pub proof fn law_member_lines(items: Seq<ResolvedMember>, i: int)
    ensures
        member_lines(items).len() == items.len(),
        0 <= i < items.len() ==> member_lines(items)[i] == member_line(items[i]),
{
}

/// One for each, in order: how assignments are shown.
pub proof fn law_assignment_lines(items: Seq<GroupAssignment>, i: int)
    ensures
        assignment_lines(items).len() == items.len(),
        0 <= i < items.len() ==> assignment_lines(items)[i] == assignment_line(items[i]),
{
}

/// What happens to a group is recorded of it, in its realm.
pub proof fn law_group_event(
    session: web::UiSession,
    realm_id: u128,
    action: web::AuditAction,
    group_id: u128,
    metadata: Seq<(Seq<char>, web::MetaView)>,
)
    ensures
        ({
            let e = group_event(session, realm_id, action, group_id, metadata);
            &&& e.realm_id == realm_id
            &&& e.actor == codec::hyphenated(session.user_id)
            &&& e.action == action
            &&& e.resource_type == "group"@
            &&& e.resource_id == codec::hyphenated(group_id)
            &&& e.metadata == metadata
        }),
{
}

/// The address of a group names its realm and its identifier, and ends with what
/// was asked for.
pub proof fn law_group_address(target: web::TargetRealm, id: u128, suffix: Seq<char>)
    ensures
        text::has_prefix(
            group_address(target, id, suffix),
            "/ui/admin/realms/"@ + target.name@ + "/groups/"@ + codec::hyphenated(id),
        ),
        group_address(target, id, suffix).skip(
            group_address(target, id, suffix).len() - suffix.len(),
        ) == suffix,
        group_address(target, id, suffix).len() == ("/ui/admin/realms/"@ + target.name@
            + "/groups/"@ + codec::hyphenated(id)).len() + suffix.len(),
{
    let a = group_address(target, id, suffix);
    let base = "/ui/admin/realms/"@ + target.name@ + "/groups/"@ + codec::hyphenated(id);
    assert(a.subrange(0, base.len() as int) =~= base);
    assert(a.skip(a.len() - suffix.len()) =~= suffix);
}

/// A search finds exactly the groups whose name or slug holds the text, whatever
/// the case, in their order.
pub proof fn law_found_groups(groups: Seq<Group>, needle: Seq<char>)
    ensures
        found_groups(groups, needle) == groups.filter(
            |g: Group|
                text::occurs_nocase(g.name@, needle) || text::occurs_nocase(g.slug@, needle),
        ),
    decreases groups.len(),
{
    reveal(Seq::filter);
    if groups.len() > 0 {
        law_found_groups(groups.drop_last(), needle);
    }
}

/// The picker offers exactly those of the users found who can be added, in their
/// order.
pub proof fn law_offered(list: Seq<users::User>, exclude: Seq<u128>, needle: Seq<char>)
    ensures
        offered(list, exclude, needle) == list.filter(
            |u: users::User|
                !exclude.contains(u.id) && (needle.len() == 0 || text::occurs_nocase(
                    u.display_name@,
                    needle,
                ) || text::occurs_nocase(u.email@, needle)),
        ),
    decreases list.len(),
{
    reveal(Seq::filter);
    if list.len() > 0 {
        law_offered(list.drop_last(), exclude, needle);
    }
}

/// The users among the members are exactly those that are no groups.
pub proof fn law_user_ids(items: Seq<GroupMember>)
    ensures
        user_ids(items) == items.filter(
            |m: GroupMember| m is User,
        ).map_values(
            |m: GroupMember| m->User_0,
        ),
    decreases items.len(),
{
    let keep = |m: GroupMember| m is User;
    let row = |m: GroupMember| m->User_0;
    reveal(Seq::filter);
    if items.len() > 0 {
        law_user_ids(items.drop_last());
        let before = items.drop_last().filter(keep);
        if keep(items.last()) {
            assert(before.push(items.last()).map_values(row) =~= before.map_values(row).push(
                row(items.last()),
            ));
        }
    } else {
        assert(items.filter(keep).map_values(row) =~= Seq::<u128>::empty());
    }
}

/// A refused slug is told as such, any other error with the words of the engine.
pub proof fn law_group_error(e: web::EngineError, otherwise: Seq<char>)
    ensures
        e.kind is DuplicateGroupSlug ==> group_error(e, otherwise)
            == "A group with that slug already exists."@,
        !(e.kind is DuplicateGroupSlug) ==> group_error(e, otherwise) == otherwise + e.text@,
{
}

/// A member is shown as what it is, under its identifier: a person by name and
/// address, a group by name and slug, and what is gone as unknown.
pub proof fn law_member_line(m: ResolvedMember)
    ensures
        m matches ResolvedMember::User { id, person } ==> {
            &&& member_line(m).member_kind == "user"@
            &&& member_line(m).member_id_uuid == codec::hyphenated(id)
            &&& person matches Some(p) ==> member_line(m).display_name == p.display_name@
                && member_line(m).subtitle == p.email@
            &&& person is None ==> member_line(m).display_name == "user_"@ + codec::hyphenated(id)
                && member_line(m).subtitle == "unknown user"@
        },
        m matches ResolvedMember::Group { id, group } ==> {
            &&& member_line(m).member_kind == "group"@
            &&& member_line(m).member_id_uuid == codec::hyphenated(id)
            &&& group matches Some(g) ==> member_line(m).display_name == g.name@ && member_line(
                m,
            ).subtitle == g.slug@
            &&& group is None ==> member_line(m).display_name == "group_"@ + codec::hyphenated(id)
                && member_line(m).subtitle == "unknown group"@
        },
{
}

/// A role of a group is shown by its name, with the scope in which it holds.
pub proof fn law_assignment_line(a: GroupAssignment)
    ensures
        assignment_line(a).0 == codec::hyphenated(a.id),
        a.role_name matches Some(name) ==> assignment_line(a).1 == name@,
        a.role_name is None ==> assignment_line(a).1 == "<unknown role>"@,
        a.scope is Realm ==> assignment_line(a).2 == "Realm"@,
        a.scope matches access::Scope::Org(id) ==> {
            &&& a.org_slug matches Some(slug) ==> assignment_line(a).2 == "Org: "@ + slug@
            &&& a.org_slug is None ==> assignment_line(a).2 == "Org: "@ + codec::hyphenated(id)
        },
{
}

/// The tab that was asked for opens, and the first one where there is no such
/// tab.
pub proof fn law_group_tab(tab: Seq<char>)
    ensures
        opened_tab(Some("members"@)) == "members"@,
        opened_tab(Some("roles"@)) == "roles"@,
        opened_tab(Some("danger"@)) == "danger"@,
        opened_tab(Some("overview"@)) == "overview"@,
        opened_tab(None) == "overview"@,
        tab != "members"@ && tab != "roles"@ && tab != "danger"@ ==> opened_tab(Some(tab))
            == "overview"@,
{
    reveal_strlit("members");
    reveal_strlit("roles");
    reveal_strlit("danger");
    assert("members"@.len() == 7 && "roles"@.len() == 5 && "danger"@.len() == 6);
}

/// A picker shows those of the users found who can be added; a search shows no
/// further page, and nobody is shown where the users could not be read.
pub proof fn law_picks(
    shown: Seq<users::User>,
    next_cursor: Option<String>,
    found: Result<sessions::Page<users::User>, web::EngineError>,
    known: Seq<GroupMember>,
    needle: Seq<char>,
)
    requires
        picks(shown, next_cursor, found, known, needle),
    ensures
        found matches Ok(page) ==> shown == offered(page.items@, user_ids(known), needle),
        found matches Ok(page) ==> (needle.len() == 0 ==> next_cursor == page.next_cursor),
        needle.len() > 0 ==> next_cursor is None,
        found is Err ==> shown.len() == 0 && next_cursor is None,
{
}

/// What is read of groups is limited.
pub proof fn law_group_limits()
    ensures
        SHOWN_MEMBERS == 500,
        KNOWN_MEMBERS == 1000,
{
}

} // verus!
