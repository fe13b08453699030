//! Members and invitations of an organization: the actions that change them.

use crate::access;
use crate::codec;
use crate::members;
use crate::orgs;
use crate::query;
use crate::sessions;
use crate::text;
use crate::user_access;
use crate::users;
use crate::web;
use vstd::prelude::*;
use vstd::string::*;

verus! {

// ---------------------------------------------------------------------------
// One member
// ---------------------------------------------------------------------------

/// The row of one member.
pub struct MemberRowTemplate {
    pub realm_name: String,
    pub org_id: String,
    pub m: members::MemberWithAccess,
    pub available_roles: Vec<access::AvailableRole>,
    pub csrf: Option<String>,
}

/// A member row with the `HX-Trigger` header that shows a message.
pub struct MemberRow {
    pub row: MemberRowTemplate,
    pub hx_trigger: String,
}

/// What the engines tell of one member; empty where they could not tell.
pub struct RowRecords {
    pub member: orgs::MemberRecord,
    /// The memberships of the organization, among which owners are counted.
    pub memberships: Vec<members::Membership>,
    pub roles: Vec<access::Role>,
    pub permission_roles: Vec<access::Role>,
}

impl MemberRow {
    /// Whether the row shows a member and a message.
    pub open spec fn shows(
        self,
        session: web::UiSession,
        target: web::TargetRealm,
        org_id: u128,
        records: RowRecords,
        message: Seq<char>,
        kind: web::FlashKind,
    ) -> bool {
        &&& self.row.realm_name@ == target.name@
        &&& self.row.org_id@ == codec::hyphenated(org_id)
        &&& orgs::shows_member(
            self.row.m,
            records.member,
            org_id,
            members::owners(records.memberships@),
            records.permission_roles@,
        )
        &&& text::views(self.row.available_roles@) == access::role_choices(
            access::org_roles(records.roles@),
        )
        &&& text::opt_text(self.row.csrf) == text::opt_text(session.csrf)
        &&& self.hx_trigger@ == web::toast_json(message, kind)
    }
}

/// Shows the row of a member again, with a message.
pub fn render_member_row_with_toast(
    session: &web::UiSession,
    target: &web::TargetRealm,
    org_id: u128,
    records: &RowRecords,
    message: &str,
    kind: web::FlashKind,
) -> (r: MemberRow)
    ensures
        r.shows(*session, *target, org_id, *records, message@, kind),
{
    let owner_count: usize = members::count_org_owners(&records.memberships);
    MemberRow {
        row: MemberRowTemplate {
            realm_name: target.name.clone(),
            org_id: codec::uuid_text(org_id),
            m: orgs::build_member(
                &records.member,
                org_id,
                owner_count,
                &records.permission_roles,
            ),
            available_roles: access::build_org_available_roles(&records.roles),
            csrf: text::clone_opt(&session.csrf),
        },
        hx_trigger: web::toast_header(message, kind),
    }
}

/// Whether an action on a member is answered with a message: for HTMX in the
/// row of the member, or alone where the member is gone; else on the page of
/// the organization.
pub open spec fn tells(
    r: web::Reply<MemberRow>,
    session: web::UiSession,
    target: web::TargetRealm,
    org_id: u128,
    is_htmx: bool,
    records: Option<RowRecords>,
    message: Seq<char>,
    kind: web::FlashKind,
) -> bool {
    if is_htmx {
        match records {
            Some(rec) => r is Page && r->Page_0.shows(
                session,
                target,
                org_id,
                rec,
                message,
                kind,
            ),
            None => r.toasts(message, kind),
        }
    } else {
        r.flashes(web::item_address(target, "organizations"@, org_id), message, kind)
    }
}

fn tell(
    session: &web::UiSession,
    target: &web::TargetRealm,
    org_id: u128,
    is_htmx: bool,
    records: &Option<RowRecords>,
    message: &str,
    kind: web::FlashKind,
) -> (r: web::Reply<MemberRow>)
    ensures
        tells(r, *session, *target, org_id, is_htmx, *records, message@, kind),
{
    if is_htmx {
        match records {
            Some(rec) => web::Reply::Page(
                render_member_row_with_toast(session, target, org_id, rec, message, kind),
            ),
            None => web::Reply::toast(message, kind),
        }
    } else {
        orgs::org_redirect_flash(org_id, target, message, kind)
    }
}

// ---------------------------------------------------------------------------
// Adding members
// ---------------------------------------------------------------------------

/// The form that adds a member.
pub struct AddMemberForm {
    /// User UUID.
    pub user_id: String,
    pub role: String,
    pub csrf: String,
}

/// Reads whom to add to which organization, as what.
pub fn admin_org_add_member_request(
    csrf_ok: bool,
    target: &web::TargetRealm,
    oid: &str,
    form: &AddMemberForm,
) -> (r: Result<members::Membership, web::Reply<()>>)
    ensures
        !csrf_ok ==> r is Err && r->Err_0 is Forbidden,
        csrf_ok ==> match codec::uuid_of(oid@) {
            None => r is Err && r->Err_0.not_found("Organization not found"@),
            Some(org_id) => match codec::uuid_of(text::trimmed(form.user_id@)) {
                None => r is Err && r->Err_0.flashes(
                    web::item_address(*target, "organizations"@, org_id),
                    "Invalid user selection"@,
                    web::FlashKind::Error,
                ),
                Some(user_id) => r is Ok && r->Ok_0 == (members::Membership {
                    org_id,
                    user_id,
                    role: members::org_role_of(form.role@),
                }),
            },
        },
{
    let org_id: u128 = match web::require_one(csrf_ok, oid, "Organization not found") {
        Ok(id) => id,
        Err(reply) => return Err(reply),
    };
    match codec::parse_uuid(text::trim(form.user_id.as_str()).as_str()) {
        Some(user_id) => Ok(
            members::Membership {
                org_id,
                user_id,
                role: members::parse_org_role(form.role.as_str()),
            },
        ),
        None => Err(
            orgs::org_redirect_flash(
                org_id,
                target,
                "Invalid user selection",
                web::FlashKind::Error,
            ),
        ),
    }
}

/// Answers after the engine tried to add a member.
pub fn admin_org_add_member(
    session: &web::UiSession,
    target: &web::TargetRealm,
    m: members::Membership,
    added: Result<(), web::EngineError>,
) -> (r: web::Outcome<()>)
    ensures
        match added {
            Ok(_) => {
                &&& r.log() == seq![
                    members::member_event(
                        *session,
                        target.id,
                        m.org_id,
                        m.user_id,
                        true,
                        m.role,
                    ),
                ]
                &&& r.reply.flashes(
                    web::item_address(*target, "organizations"@, m.org_id),
                    "Member added successfully"@,
                    web::FlashKind::Success,
                )
            },
            Err(e) => r.is_silent() && r.reply.flashes(
                web::item_address(*target, "organizations"@, m.org_id),
                if e.kind is AlreadyMember {
                    "User is already a member"@
                } else {
                    "Failed to add member"@
                },
                web::FlashKind::Error,
            ),
        },
{
    match added {
        Ok(_) => {
            let event = members::mirror_org_member_added(
                session,
                target.id,
                m.org_id,
                m.user_id,
                m.role,
            );
            web::Outcome::logged(
                orgs::org_redirect_flash(
                    m.org_id,
                    target,
                    "Member added successfully",
                    web::FlashKind::Success,
                ),
                event,
            )
        },
        Err(e) => {
            let message = match e.kind {
                web::ErrorKind::AlreadyMember => "User is already a member",
                _ => "Failed to add member",
            };
            web::Outcome::silent(
                orgs::org_redirect_flash(m.org_id, target, message, web::FlashKind::Error),
            )
        },
    }
}

/// Query parameters of the member picker.
pub struct MemberPickerParams {
    /// What to search for.
    pub q: String,
    /// Where the page starts.
    pub cursor: Option<String>,
}

/// The rows of the member picker.
pub struct MemberPickerRowsTemplate {
    pub realm_name: String,
    pub org_id: String,
    pub users: Vec<users::User>,
    pub query: String,
    pub next_cursor: Option<String>,
    pub csrf: Option<String>,
    pub available_roles: Vec<access::AvailableRole>,
    pub theme_css: String,
}

/// Decides what the member picker asks the engine for.
pub fn admin_org_member_picker_query(params: &MemberPickerParams) -> (r: users::ListQuery)
    ensures
        users::asks_list(r, text::trimmed(params.q@), params.cursor, users::PAGE_SIZE),
{
    let q = text::trim(params.q.as_str());
    users::list_query(q.as_str(), &params.cursor, users::PAGE_SIZE)
}

/// Shows the users who can be picked; none where they could not be read.
pub fn admin_org_member_picker(
    site: &web::Site,
    session: &web::UiSession,
    target: &web::TargetRealm,
    org_id: u128,
    params: &MemberPickerParams,
    found: Result<sessions::Page<users::User>, web::EngineError>,
    roles: &Vec<access::Role>,
) -> (r: web::Reply<MemberPickerRowsTemplate>)
    ensures
        r is Page && {
            let p = r->Page_0;
            &&& match found {
                Ok(page) => p.users == page.items && p.next_cursor == page.next_cursor,
                Err(_) => p.users@.len() == 0 && p.next_cursor is None,
            }
            &&& p.realm_name@ == target.name@
            &&& p.org_id@ == codec::hyphenated(org_id)
            &&& p.query@ == text::trimmed(params.q@)
            &&& text::opt_text(p.csrf) == text::opt_text(session.csrf)
            &&& text::views(p.available_roles@) == access::role_choices(access::org_roles(roles@))
            &&& p.theme_css@ == site.theme_css@
        },
{
    let (users, next_cursor) = match found {
        Ok(page) => (page.items, page.next_cursor),
        Err(_) => (Vec::new(), None),
    };
    web::Reply::Page(
        MemberPickerRowsTemplate {
            realm_name: target.name.clone(),
            org_id: codec::uuid_text(org_id),
            users,
            query: text::trim(params.q.as_str()),
            next_cursor,
            csrf: text::clone_opt(&session.csrf),
            available_roles: access::build_org_available_roles(roles),
            theme_css: site.theme_css.clone(),
        },
    )
}

/// Query parameters of the user search.
pub struct UserSearchParams {
    /// What to search for.
    pub q: String,
}

/// The text to search for, where there is enough of it.
pub open spec fn searched(q: Seq<char>) -> Option<Seq<char>> {
    if text::trimmed(q).len() < 2 {
        None
    } else {
        Some(text::trimmed(q))
    }
}

/// The number of users that a user search shows.
pub const FOUND_USERS: usize = 10;

/// The number of members among whom owners are counted.
pub const COUNTED_MEMBERS: usize = 1000;

/// The number of invitations among which one is sought to be sent again.
pub const SOUGHT_INVITATIONS: usize = 200;

/// Decides what the user search asks the engine for: nothing for less than
/// two characters.
pub fn user_search_query(params: &UserSearchParams) -> (r: Option<users::UserSearch>)
    ensures
        users::searches(r, searched(params.q@), FOUND_USERS),
{
    let q = text::trim(params.q.as_str());
    if text::two_chars_or_more(q.as_str()) {
        Some(users::UserSearch { text: q, limit: FOUND_USERS })
    } else {
        None
    }
}

/// The users that a search found.
pub struct UserSearchResultsTemplate {
    pub users: Vec<users::User>,
    pub query: String,
    pub theme_css: String,
}

/// Shows the users that a search found; none where it asked for nothing or
/// failed.
pub fn admin_api_user_search(
    site: &web::Site,
    params: &UserSearchParams,
    found: Result<Vec<users::User>, web::EngineError>,
) -> (r: web::Reply<UserSearchResultsTemplate>)
    ensures
        r is Page && {
            let p = r->Page_0;
            &&& shows_found(p.users, params.q@, found)
            &&& p.query@ == text::trimmed(params.q@)
            &&& p.theme_css@ == site.theme_css@
        },
{
    let query = text::trim(params.q.as_str());
    let users = found_users(query.as_str(), found);
    web::Reply::Page(
        UserSearchResultsTemplate { users, query, theme_css: site.theme_css.clone() },
    )
}

/// Whether `shown` is what a search for `q` shows.
pub open spec fn shows_found(
    shown: Vec<users::User>,
    q: Seq<char>,
    found: Result<Vec<users::User>, web::EngineError>,
) -> bool {
    match (searched(q), found) {
        (Some(_), Ok(list)) => shown == list,
        _ => shown@.len() == 0,
    }
}

fn found_users(query: &str, found: Result<Vec<users::User>, web::EngineError>) -> (r: Vec<
    users::User,
>)
    ensures
        match found {
            Ok(list) => if query@.len() >= 2 {
                r == list
            } else {
                r@.len() == 0
            },
            Err(_) => r@.len() == 0,
        },
{
    if !text::two_chars_or_more(query) {
        return Vec::new();
    }
    match found {
        Ok(list) => list,
        Err(_) => Vec::new(),
    }
}

/// The users from which the access page completes its input.
pub struct RbacUserSearchOptionsTemplate {
    pub users: Vec<users::User>,
    pub query: String,
}

/// Shows the users from which the access page completes its input.
pub fn admin_api_rbac_user_search(
    params: &UserSearchParams,
    found: Result<Vec<users::User>, web::EngineError>,
) -> (r: web::Reply<RbacUserSearchOptionsTemplate>)
    ensures
        r is Page && {
            let p = r->Page_0;
            &&& shows_found(p.users, params.q@, found)
            &&& p.query@ == text::trimmed(params.q@)
        },
{
    let query = text::trim(params.q.as_str());
    let users = found_users(query.as_str(), found);
    web::Reply::Page(RbacUserSearchOptionsTemplate { users, query })
}

// ---------------------------------------------------------------------------
// Removing members and changing their role
// ---------------------------------------------------------------------------

/// Reads which member of which organization an action is about.
pub fn member_request(csrf_ok: bool, oid: &str, uid: &str) -> (r: Result<
    (u128, u128),
    web::Reply<MemberRow>,
>)
    ensures
        web::names_two(r, csrf_ok, oid@, "Organization not found"@, uid@, "User not found"@),
{
    web::require_two(csrf_ok, oid, "Organization not found", uid, "User not found")
}

/// Answers after the engine tried to remove a member. `prior_role` is the role
/// before, where it was known; `records` are read where HTMX has to put the
/// row back.
pub fn admin_org_remove_member(
    session: &web::UiSession,
    target: &web::TargetRealm,
    org_id: u128,
    user_id: u128,
    is_htmx: bool,
    prior_role: Option<members::OrganizationRole>,
    removed: Result<(), web::EngineError>,
    records: &Option<RowRecords>,
) -> (r: web::Outcome<MemberRow>)
    ensures
        match removed {
            Ok(_) => {
                &&& r.log() == match prior_role {
                    Some(role) => seq![
                        members::member_event(
                            *session,
                            target.id,
                            org_id,
                            user_id,
                            false,
                            role,
                        ),
                    ],
                    None => Seq::empty(),
                }
                &&& tells(
                    r.reply,
                    *session,
                    *target,
                    org_id,
                    is_htmx,
                    None,
                    "Member removed"@,
                    web::FlashKind::Success,
                )
            },
            Err(e) => r.is_silent() && tells(
                r.reply,
                *session,
                *target,
                org_id,
                is_htmx,
                *records,
                e.text@,
                web::FlashKind::Error,
            ),
        },
{
    match removed {
        Ok(_) => {
            let event = match prior_role {
                Some(role) => Some(
                    members::mirror_org_member_removed(
                        session,
                        target.id,
                        org_id,
                        user_id,
                        role,
                    ),
                ),
                None => None,
            };
            let reply = tell(
                session,
                target,
                org_id,
                is_htmx,
                &None,
                "Member removed",
                web::FlashKind::Success,
            );
            web::Outcome::noted(reply, event)
        },
        Err(e) => web::Outcome::silent(
            tell(
                session,
                target,
                org_id,
                is_htmx,
                records,
                e.text.as_str(),
                web::FlashKind::Error,
            ),
        ),
    }
}

/// The form that changes the role of a member.
pub struct UpdateRoleForm {
    pub role: String,
    pub csrf: String,
}

/// Answers after the engine tried to change the role of a member. `old_role`
/// is the role before, where it was known.
pub fn admin_org_update_role(
    session: &web::UiSession,
    target: &web::TargetRealm,
    org_id: u128,
    user_id: u128,
    form: &UpdateRoleForm,
    is_htmx: bool,
    old_role: Option<members::OrganizationRole>,
    updated: Result<(), web::EngineError>,
    records: &Option<RowRecords>,
) -> (r: web::Outcome<MemberRow>)
    ensures
        match updated {
            Ok(_) => {
                let new_role = members::org_role_of(form.role@);
                &&& r.log() == match old_role {
                    Some(old) => members::role_change_events(
                        *session,
                        target.id,
                        org_id,
                        user_id,
                        old,
                        new_role,
                    ),
                    None => seq![
                        members::member_event(
                            *session,
                            target.id,
                            org_id,
                            user_id,
                            true,
                            new_role,
                        ),
                    ],
                }
                &&& tells(
                    r.reply,
                    *session,
                    *target,
                    org_id,
                    is_htmx,
                    *records,
                    "Role updated"@,
                    web::FlashKind::Success,
                )
            },
            Err(e) => r.is_silent() && tells(
                r.reply,
                *session,
                *target,
                org_id,
                is_htmx,
                *records,
                e.text@,
                web::FlashKind::Error,
            ),
        },
{
    match updated {
        Ok(_) => {
            let new_role = members::parse_org_role(form.role.as_str());
            let reply = tell(
                session,
                target,
                org_id,
                is_htmx,
                records,
                "Role updated",
                web::FlashKind::Success,
            );
            match old_role {
                Some(old_role) => web::Outcome {
                    reply,
                    events: members::mirror_org_role_changed(
                        session,
                        target.id,
                        org_id,
                        user_id,
                        old_role,
                        new_role,
                    ),
                },
                None => web::Outcome::logged(
                    reply,
                    members::mirror_org_member_added(
                        session,
                        target.id,
                        org_id,
                        user_id,
                        new_role,
                    ),
                ),
            }
        },
        Err(e) => web::Outcome::silent(
            tell(
                session,
                target,
                org_id,
                is_htmx,
                records,
                e.text.as_str(),
                web::FlashKind::Error,
            ),
        ),
    }
}

// ---------------------------------------------------------------------------
// Invitations
// ---------------------------------------------------------------------------

/// The form that invites somebody.
pub struct InviteForm {
    pub email: String,
    pub role: String,
    pub csrf: String,
}

/// What the engine is asked to invite.
pub struct CreateInvitationRequest {
    pub org_id: u128,
    pub email: String,
    pub role: members::OrganizationRole,
    pub invited_by: u128,
}

/// Reads whom to invite to which organization, as what.
pub fn admin_org_invite_request(
    csrf_ok: bool,
    session: &web::UiSession,
    oid: &str,
    form: &InviteForm,
) -> (r: Result<CreateInvitationRequest, web::Reply<()>>)
    ensures
        !csrf_ok ==> r is Err && r->Err_0 is Forbidden,
        csrf_ok ==> match codec::uuid_of(oid@) {
            None => r is Err && r->Err_0.not_found("Organization not found"@),
            Some(org_id) => r is Ok && {
                let q = r->Ok_0;
                &&& q.org_id == org_id
                &&& q.email@ == form.email@
                &&& q.role == members::org_role_of(form.role@)
                &&& q.invited_by == session.user_id
            },
        },
{
    let org_id: u128 = match web::require_one(csrf_ok, oid, "Organization not found") {
        Ok(id) => id,
        Err(reply) => return Err(reply),
    };
    Ok(
        CreateInvitationRequest {
            org_id,
            email: form.email.clone(),
            role: members::parse_org_role(form.role.as_str()),
            invited_by: session.user_id,
        },
    )
}

/// The mail that carries an invitation.
pub struct InvitationMail {
    pub to: String,
    pub accept_url: String,
    pub org_name: String,
    pub inviter: String,
}

/// The address at which an invitation is accepted.
pub open spec fn accept_address(base_url: Option<String>, token: Seq<char>) -> Seq<char> {
    sessions::text_or(base_url, "https://hearth.local"@) + "/ui/accept-invitation?token="@ + token
}

/// The link of an invitation leads to the page that accepts it, below the
/// address of the installation, and carries the token: what stands behind
/// `token=` in its query is the token.
pub proof fn law_invitation_link(base_url: Option<String>, token: Seq<char>)
    requires
        !token.contains('&'),
    ensures
        ({
            let base = match base_url {
                Some(b) => b@,
                None => "https://hearth.local"@,
            };
            let page = base + "/ui/accept-invitation"@;
            let link = accept_address(base_url, token);
            let query = link.skip((page.len() + 1) as int);
            &&& text::has_prefix(link, page)
            &&& link[page.len() as int] == '?'
            &&& query::value_after(query::params_of(query), "token="@) == Some(token)
            &&& !base.contains('?') ==> query::query_of(link) == Some(query)
        }),
{
    let base = match base_url {
        Some(b) => b@,
        None => "https://hearth.local"@,
    };
    let page = base + "/ui/accept-invitation"@;
    let link = accept_address(base_url, token);
    let query = "token="@ + token;
    reveal_strlit("/ui/accept-invitation?token=");
    reveal_strlit("/ui/accept-invitation");
    reveal_strlit("token=");
    assert(link =~= page + seq!['?'] + query);
    assert(link.subrange(0, page.len() as int) =~= page);
    assert(link.skip((page.len() + 1) as int) =~= query);
    query::law_value_round_trip("token="@, token);
    if !base.contains('?') {
        assert(!page.contains('?')) by {
            if page.contains('?') {
                let i = choose|i: int| 0 <= i < page.len() && page[i] == '?';
                if i < base.len() {
                    assert(base[i] == '?');
                }
            }
        }
        query::lemma_query_of(page, query);
    }
}

/// Two invitations of one installation have one link only where they have one
/// token.
pub proof fn law_invitation_links_differ(
    base_url: Option<String>,
    token: Seq<char>,
    other: Seq<char>,
)
    ensures
        accept_address(base_url, token) == accept_address(base_url, other) ==> token == other,
{
    let link = accept_address(base_url, token);
    assert(link.skip(link.len() - token.len()) =~= token);
    let second = accept_address(base_url, other);
    assert(second.skip(second.len() - other.len()) =~= other);
}

/// Writes the mail that carries an invitation. `base_url` is the address of
/// the installation, where it is configured; `org_name` that of the
/// organization, where it is known.
pub fn invitation_mail(
    session: &web::UiSession,
    to: &str,
    token: &str,
    base_url: &Option<String>,
    org_name: &Option<String>,
) -> (r: InvitationMail)
    ensures
        r.to@ == to@,
        r.accept_url@ == accept_address(*base_url, token@),
        !token@.contains('&') ==> ({
            let base = match base_url {
                Some(b) => b@,
                None => "https://hearth.local"@,
            };
            let page = base + "/ui/accept-invitation"@;
            &&& text::has_prefix(r.accept_url@, page + "?"@)
            &&& query::value_after(
                query::params_of(r.accept_url@.skip((page.len() + 1) as int)),
                "token="@,
            ) == Some(token@)
        }),
        r.org_name@ == sessions::text_or(*org_name, "your organization"@),
        r.inviter@ == session.user_email@,
{
    proof {
        if !token@.contains('&') {
            law_invitation_link(*base_url, token@);
            reveal_strlit("?");
            reveal_strlit("/ui/accept-invitation?token=");
            reveal_strlit("/ui/accept-invitation");
            let page = sessions::text_or(*base_url, "https://hearth.local"@)
                + "/ui/accept-invitation"@;
            let link = accept_address(*base_url, token@);
            assert(link.subrange(0, (page + "?"@).len() as int) =~= page + "?"@);
        }
    }
    InvitationMail {
        to: to.to_owned(),
        accept_url: sessions::or_default(base_url, "https://hearth.local").concat(
            "/ui/accept-invitation?token=",
        ).concat(token),
        org_name: sessions::or_default(org_name, "your organization"),
        inviter: session.user_email.clone(),
    }
}

/// Answers after the engine tried to invite somebody; whether the mail went
/// out does not matter.
pub fn admin_org_invite(
    target: &web::TargetRealm,
    org_id: u128,
    form: &InviteForm,
    created: Result<(), web::EngineError>,
) -> (r: web::Reply<()>)
    ensures
        created is Ok ==> r.flashes(
            web::item_address(*target, "organizations"@, org_id),
            "Invitation sent to "@ + form.email@,
            web::FlashKind::Success,
        ),
        created is Err ==> r.flashes(
            web::item_address(*target, "organizations"@, org_id),
            "Failed to create invitation"@,
            web::FlashKind::Error,
        ),
{
    match created {
        Ok(_) => {
            let message = "Invitation sent to ".to_owned().concat(form.email.as_str());
            orgs::org_redirect_flash(org_id, target, message.as_str(), web::FlashKind::Success)
        },
        Err(_) => orgs::org_redirect_flash(
            org_id,
            target,
            "Failed to create invitation",
            web::FlashKind::Error,
        ),
    }
}

/// Reads which invitation of which organization an action is about.
pub fn invitation_request(csrf_ok: bool, oid: &str, iid: &str) -> (r: Result<
    (u128, u128),
    web::Reply<()>,
>)
    ensures
        web::names_two(
            r,
            csrf_ok,
            oid@,
            "Organization not found"@,
            iid@,
            "Invitation not found"@,
        ),
{
    web::require_two(csrf_ok, oid, "Organization not found", iid, "Invitation not found")
}

/// Answers after an invitation was to be revoked, whether or not it was.
pub fn admin_org_revoke_invite(target: &web::TargetRealm, org_id: u128) -> (r: web::Reply<()>)
    ensures
        r.redirects(web::item_address(*target, "organizations"@, org_id)),
{
    web::Reply::Redirect(web::item_url(target, "organizations", org_id))
}

/// The first invitation of a list with an identifier.
pub open spec fn invitation_with(items: Seq<orgs::Invitation>, id: u128) -> Option<
    orgs::Invitation,
>
    decreases items.len(),
{
    if items.len() == 0 {
        None
    } else if items[0].id == id {
        Some(items[0])
    } else {
        invitation_with(items.skip(1), id)
    }
}

/// Whether an invitation replaces an older one: it goes to the same address
/// with the same role.
pub open spec fn replaces(
    q: CreateInvitationRequest,
    session: web::UiSession,
    org_id: u128,
    older: orgs::Invitation,
) -> bool {
    &&& q.org_id == org_id
    &&& q.email@ == older.email@
    &&& q.role == older.role
    &&& q.invited_by == session.user_id
}

/// A change of invitations.
pub enum InvitationAction {
    /// Take an invitation back.
    Revoke(u128),
    /// Invite somebody.
    Create(CreateInvitationRequest),
}

fn find_invitation(items: &Vec<orgs::Invitation>, id: u128) -> (r: Option<&orgs::Invitation>)
    ensures
        match r {
            Some(found) => invitation_with(items@, id) == Some(*found),
            None => invitation_with(items@, id) is None,
        },
{
    let mut i: usize = 0;
    proof {
        assert(items@.skip(0) =~= items@);
    }
    while i < items.len()
        invariant
            i <= items.len(),
            invitation_with(items@, id) == invitation_with(items@.skip(i as int), id),
        decreases items.len() - i,
    {
        proof {
            assert(items@.skip(i as int)[0] == items@[i as int]);
            assert(items@.skip(i as int).skip(1) =~= items@.skip(i + 1));
        }
        if items[i].id == id {
            return Some(&items[i]);
        }
        i += 1;
    }
    None
}

/// Decides how an invitation is sent again: the old one is taken back first, so
/// that two are never pending, and a new one takes its place. The actions are
/// all taken, in order; one that fails stops none after it.
pub fn admin_org_resend_invite_actions(
    session: &web::UiSession,
    target: &web::TargetRealm,
    org_id: u128,
    invitation_id: u128,
    listed: &Result<Vec<orgs::Invitation>, web::EngineError>,
) -> (r: Result<Vec<InvitationAction>, web::Reply<()>>)
    ensures
        match listed {
            Err(_) => r is Err && r->Err_0.flashes(
                web::item_address(*target, "organizations"@, org_id),
                "Failed to load invitation"@,
                web::FlashKind::Error,
            ),
            Ok(items) => match invitation_with(items@, invitation_id) {
                None => r is Err && r->Err_0.not_found("Invitation not found"@),
                Some(older) => r is Ok && exists|q: CreateInvitationRequest|
                    #[trigger] replaces(q, *session, org_id, older) && r->Ok_0@ == seq![
                        InvitationAction::Revoke(invitation_id),
                        InvitationAction::Create(q),
                    ],
            },
        },
{
    let items = match listed {
        Err(_) => return Err(
            orgs::org_redirect_flash(
                org_id,
                target,
                "Failed to load invitation",
                web::FlashKind::Error,
            ),
        ),
        Ok(items) => items,
    };
    let older = match find_invitation(items, invitation_id) {
        None => return Err(web::Reply::missing("Invitation not found")),
        Some(older) => older,
    };
    let request = CreateInvitationRequest {
        org_id,
        email: older.email.clone(),
        role: older.role,
        invited_by: session.user_id,
    };
    let ghost q = request;
    let mut actions: Vec<InvitationAction> = Vec::new();
    actions.push(InvitationAction::Revoke(invitation_id));
    actions.push(InvitationAction::Create(request));
    proof {
        assert(replaces(q, *session, org_id, *older));
        assert(actions@ =~= seq![
            InvitationAction::Revoke(invitation_id),
            InvitationAction::Create(q),
        ]);
    }
    Ok(actions)
}

/// Answers after the engine tried to replace an invitation.
pub fn admin_org_resend_invite(
    target: &web::TargetRealm,
    request: &CreateInvitationRequest,
    created: Result<(), web::EngineError>,
) -> (r: web::Reply<()>)
    ensures
        created is Ok ==> r.flashes(
            web::item_address(*target, "organizations"@, request.org_id),
            "Invitation resent to "@ + request.email@,
            web::FlashKind::Success,
        ),
        created is Err ==> r.flashes(
            web::item_address(*target, "organizations"@, request.org_id),
            "Failed to resend invitation"@,
            web::FlashKind::Error,
        ),
{
    match created {
        Ok(_) => {
            let message = "Invitation resent to ".to_owned().concat(request.email.as_str());
            orgs::org_redirect_flash(
                request.org_id,
                target,
                message.as_str(),
                web::FlashKind::Success,
            )
        },
        Err(_) => orgs::org_redirect_flash(
            request.org_id,
            target,
            "Failed to resend invitation",
            web::FlashKind::Error,
        ),
    }
}

// ---------------------------------------------------------------------------
// Roles and permissions of members
// ---------------------------------------------------------------------------

/// The form that assigns a role to a member.
pub struct MemberAssignRoleForm {
    pub csrf: String,
    pub role_id: String,
}

/// The form that takes a role back from a member.
pub struct MemberUnassignRoleForm {
    pub csrf: String,
}

/// The form that grants a permission to a member.
pub struct MemberGrantPermForm {
    pub csrf: String,
    pub permission: String,
    pub scope: String,
}

/// The form that revokes a permission from a member.
pub struct MemberRevokePermForm {
    pub csrf: String,
    pub permission: String,
    pub scope: String,
}

/// Reads which role to assign to which member: it holds in the organization.
pub fn admin_org_member_assign_role_request(
    csrf_ok: bool,
    session: &web::UiSession,
    oid: &str,
    uid: &str,
    form: &MemberAssignRoleForm,
) -> (r: Result<(u128, user_access::AssignRequest), web::Reply<MemberRow>>)
    ensures
        !csrf_ok ==> r is Err && r->Err_0 is Forbidden,
        csrf_ok ==> match (
            codec::uuid_of(oid@),
            codec::uuid_of(uid@),
            codec::uuid_of(form.role_id@),
        ) {
            (None, _, _) => r is Err && r->Err_0.not_found("Organization not found"@),
            (Some(_), None, _) => r is Err && r->Err_0.not_found("User not found"@),
            (Some(_), Some(_), None) => r is Err && r->Err_0.toasts(
                "Invalid role ID"@,
                web::FlashKind::Error,
            ),
            (Some(org_id), Some(user_id), Some(role_id)) => r is Ok && r->Ok_0 == (
                org_id,
                user_access::AssignRequest {
                    user_id,
                    role_id,
                    scope: access::Scope::Org(org_id),
                    assigned_by: session.user_id,
                },
            ),
        },
{
    let (org_id, user_id) = match member_request(csrf_ok, oid, uid) {
        Ok(ids) => ids,
        Err(reply) => return Err(reply),
    };
    match codec::parse_uuid(form.role_id.as_str()) {
        Some(role_id) => Ok(
            (
                org_id,
                user_access::AssignRequest {
                    user_id,
                    role_id,
                    scope: access::Scope::Org(org_id),
                    assigned_by: session.user_id,
                },
            ),
        ),
        None => Err(web::Reply::toast("Invalid role ID", web::FlashKind::Error)),
    }
}

/// Answers after the engine tried to assign a role to a member. `oid` is the
/// organization as the request wrote it.
pub fn admin_org_member_assign_role(
    session: &web::UiSession,
    target: &web::TargetRealm,
    oid: &str,
    org_id: u128,
    user_id: u128,
    form: &MemberAssignRoleForm,
    is_htmx: bool,
    assigned: Result<(), web::EngineError>,
    records: &Option<RowRecords>,
) -> (r: web::Outcome<MemberRow>)
    ensures
        match assigned {
            Ok(_) => {
                &&& r.log() == seq![
                    members::role_event(
                        *session,
                        target.id,
                        user_id,
                        true,
                        "organization"@,
                        oid@,
                        form.role_id@,
                    ),
                ]
                &&& tells(
                    r.reply,
                    *session,
                    *target,
                    org_id,
                    is_htmx,
                    *records,
                    "Role assigned"@,
                    web::FlashKind::Success,
                )
            },
            Err(e) => r.is_silent() && r.reply.toasts(e.text@, web::FlashKind::Error),
        },
{
    match assigned {
        Ok(_) => {
            let event = members::audit_role_event(
                session,
                target.id,
                user_id,
                true,
                "organization",
                oid,
                form.role_id.as_str(),
            );
            let reply = tell(
                session,
                target,
                org_id,
                is_htmx,
                records,
                "Role assigned",
                web::FlashKind::Success,
            );
            web::Outcome::logged(reply, event)
        },
        Err(e) => web::Outcome::silent(
            web::Reply::toast(e.text.as_str(), web::FlashKind::Error),
        ),
    }
}

/// Reads which assignment to take back from which member.
pub fn admin_org_member_unassign_role_request(csrf_ok: bool, oid: &str, uid: &str, aid: &str) -> (r:
    Result<(u128, u128, u128), web::Reply<MemberRow>>)
    ensures
        !csrf_ok ==> r is Err && r->Err_0 is Forbidden,
        csrf_ok ==> match (codec::uuid_of(oid@), codec::uuid_of(uid@), codec::uuid_of(aid@)) {
            (None, _, _) => r is Err && r->Err_0.not_found("Organization not found"@),
            (Some(_), None, _) => r is Err && r->Err_0.not_found("User not found"@),
            (Some(_), Some(_), None) => r is Err && r->Err_0.not_found("Assignment not found"@),
            (Some(o), Some(u), Some(a)) => r is Ok && r->Ok_0 == (o, u, a),
        },
{
    let (org_id, user_id) = match member_request(csrf_ok, oid, uid) {
        Ok(ids) => ids,
        Err(reply) => return Err(reply),
    };
    match codec::parse_uuid(aid) {
        Some(assignment_id) => Ok((org_id, user_id, assignment_id)),
        None => Err(web::Reply::missing("Assignment not found")),
    }
}

/// Answers after an action on the access of a member: the message of success,
/// or the error alone.
fn member_access_reply(
    session: &web::UiSession,
    target: &web::TargetRealm,
    org_id: u128,
    is_htmx: bool,
    done: Result<(), web::EngineError>,
    records: &Option<RowRecords>,
    message: &str,
) -> (r: web::Reply<MemberRow>)
    ensures
        match done {
            Ok(_) => tells(
                r,
                *session,
                *target,
                org_id,
                is_htmx,
                *records,
                message@,
                web::FlashKind::Success,
            ),
            Err(e) => r.toasts(e.text@, web::FlashKind::Error),
        },
{
    match done {
        Ok(_) => tell(
            session,
            target,
            org_id,
            is_htmx,
            records,
            message,
            web::FlashKind::Success,
        ),
        Err(e) => web::Reply::toast(e.text.as_str(), web::FlashKind::Error),
    }
}

/// Answers after the engine tried to take a role back from a member.
pub fn admin_org_member_unassign_role(
    session: &web::UiSession,
    target: &web::TargetRealm,
    org_id: u128,
    is_htmx: bool,
    unassigned: Result<(), web::EngineError>,
    records: &Option<RowRecords>,
) -> (r: web::Reply<MemberRow>)
    ensures
        match unassigned {
            Ok(_) => tells(
                r,
                *session,
                *target,
                org_id,
                is_htmx,
                *records,
                "Role removed"@,
                web::FlashKind::Success,
            ),
            Err(e) => r.toasts(e.text@, web::FlashKind::Error),
        },
{
    member_access_reply(session, target, org_id, is_htmx, unassigned, records, "Role removed")
}

/// The scope that a member form means; what makes no sense means the
/// organization.
pub open spec fn member_scope(scope: Seq<char>, org_id: u128) -> access::Scope {
    match access::scope_meant(scope, access::uuid_reading()) {
        Ok(s) => s,
        Err(_) => access::Scope::Org(org_id),
    }
}

fn read_member_scope(scope: &str, org_id: u128) -> (r: access::Scope)
    ensures
        r == member_scope(scope@, org_id),
{
    match access::parse_rbac_scope(scope) {
        Ok(s) => s,
        Err(_) => access::Scope::Org(org_id),
    }
}

/// The permission that the form names, for the engine to check: without white
/// space around it.
pub fn admin_org_member_grant_perm_text(form: &MemberGrantPermForm) -> (r: String)
    ensures
        r@ == text::trimmed(form.permission@),
{
    text::trim(form.permission.as_str())
}

/// Reads which permission to grant to which member, where. `permission` is
/// what the engine made of the form's text, where it accepts it; `now` is the
/// time.
pub fn admin_org_member_grant_perm_request(
    csrf_ok: bool,
    session: &web::UiSession,
    oid: &str,
    uid: &str,
    permission: Option<String>,
    form: &MemberGrantPermForm,
    now: i64,
) -> (r: Result<(u128, user_access::GrantRequest), web::Reply<MemberRow>>)
    ensures
        !csrf_ok ==> r is Err && r->Err_0 is Forbidden,
        csrf_ok ==> match (codec::uuid_of(oid@), codec::uuid_of(uid@), permission) {
            (None, _, _) => r is Err && r->Err_0.not_found("Organization not found"@),
            (Some(_), None, _) => r is Err && r->Err_0.not_found("User not found"@),
            (Some(_), Some(_), None) => r is Err && r->Err_0.toasts(
                "Invalid permission string"@,
                web::FlashKind::Error,
            ),
            (Some(org_id), Some(user_id), Some(p)) => r is Ok && r->Ok_0 == (
                org_id,
                user_access::GrantRequest {
                    user_id,
                    permission: p,
                    scope: member_scope(form.scope@, org_id),
                    granted_at: now,
                    granted_by: session.user_id,
                },
            ),
        },
{
    let (org_id, user_id) = match member_request(csrf_ok, oid, uid) {
        Ok(ids) => ids,
        Err(reply) => return Err(reply),
    };
    match permission {
        None => Err(web::Reply::toast("Invalid permission string", web::FlashKind::Error)),
        Some(permission) => Ok(
            (
                org_id,
                user_access::GrantRequest {
                    user_id,
                    permission,
                    scope: read_member_scope(form.scope.as_str(), org_id),
                    granted_at: now,
                    granted_by: session.user_id,
                },
            ),
        ),
    }
}

/// Answers after the engine tried to grant a permission to a member.
pub fn admin_org_member_grant_perm(
    session: &web::UiSession,
    target: &web::TargetRealm,
    org_id: u128,
    is_htmx: bool,
    granted: Result<(), web::EngineError>,
    records: &Option<RowRecords>,
) -> (r: web::Reply<MemberRow>)
    ensures
        match granted {
            Ok(_) => tells(
                r,
                *session,
                *target,
                org_id,
                is_htmx,
                *records,
                "Permission granted"@,
                web::FlashKind::Success,
            ),
            Err(e) => r.toasts(e.text@, web::FlashKind::Error),
        },
{
    member_access_reply(session, target, org_id, is_htmx, granted, records, "Permission granted")
}

/// Reads which permission to revoke from which member, where.
pub fn admin_org_member_revoke_perm_request(
    csrf_ok: bool,
    oid: &str,
    uid: &str,
    permission: Option<String>,
    form: &MemberRevokePermForm,
) -> (r: Result<(u128, user_access::RevokeRequest), web::Reply<MemberRow>>)
    ensures
        !csrf_ok ==> r is Err && r->Err_0 is Forbidden,
        csrf_ok ==> match (codec::uuid_of(oid@), codec::uuid_of(uid@), permission) {
            (None, _, _) => r is Err && r->Err_0.not_found("Organization not found"@),
            (Some(_), None, _) => r is Err && r->Err_0.not_found("User not found"@),
            (Some(_), Some(_), None) => r is Err && r->Err_0.toasts(
                "Invalid permission string"@,
                web::FlashKind::Error,
            ),
            (Some(org_id), Some(user_id), Some(p)) => r is Ok && r->Ok_0 == (
                org_id,
                user_access::RevokeRequest {
                    user_id,
                    permission: p,
                    scope: member_scope(form.scope@, org_id),
                },
            ),
        },
{
    let (org_id, user_id) = match member_request(csrf_ok, oid, uid) {
        Ok(ids) => ids,
        Err(reply) => return Err(reply),
    };
    match permission {
        None => Err(web::Reply::toast("Invalid permission string", web::FlashKind::Error)),
        Some(permission) => Ok(
            (
                org_id,
                user_access::RevokeRequest {
                    user_id,
                    permission,
                    scope: read_member_scope(form.scope.as_str(), org_id),
                },
            ),
        ),
    }
}

/// Answers after the engine tried to revoke a permission from a member.
pub fn admin_org_member_revoke_perm(
    session: &web::UiSession,
    target: &web::TargetRealm,
    org_id: u128,
    is_htmx: bool,
    revoked: Result<(), web::EngineError>,
    records: &Option<RowRecords>,
) -> (r: web::Reply<MemberRow>)
    ensures
        match revoked {
            Ok(_) => tells(
                r,
                *session,
                *target,
                org_id,
                is_htmx,
                *records,
                "Permission revoked"@,
                web::FlashKind::Success,
            ),
            Err(e) => r.toasts(e.text@, web::FlashKind::Error),
        },
{
    member_access_reply(session, target, org_id, is_htmx, revoked, records, "Permission revoked")
}

/// Where the row shows a member and a message: each part of what that says.
pub proof fn law_member_row_shows(
    it: MemberRow,
    session: web::UiSession,
    target: web::TargetRealm,
    org_id: u128,
    records: RowRecords,
    message: Seq<char>,
    kind: web::FlashKind,
)
    requires
        it.shows(session, target, org_id, records, message, kind),
    ensures
        it.row.realm_name@ == target.name@,
        it.row.org_id@ == codec::hyphenated(org_id),
        orgs::shows_member(
            it.row.m,
            records.member,
            org_id,
            members::owners(records.memberships@),
            records.permission_roles@,
        ),
        text::views(it.row.available_roles@) == access::role_choices(
            access::org_roles(records.roles@),
        ),
        text::opt_text(it.row.csrf) == text::opt_text(session.csrf),
        it.hx_trigger@ == web::toast_json(message, kind),
{
}

/// An invitation replaces an older one exactly where it goes to the same address,
/// for the same organization and role, from the person signed in.
pub proof fn law_replaces(
    q: CreateInvitationRequest,
    session: web::UiSession,
    org_id: u128,
    older: orgs::Invitation,
)
    ensures
        replaces(q, session, org_id, older) <==> q.org_id == org_id && q.email@ == older.email@
            && q.role == older.role && q.invited_by == session.user_id,
{
}

/// An action on a member is answered in the row of the member, or alone where the
/// member is gone; without scripts, on the page of the organization. The message
/// is the same everywhere.
pub proof fn law_tells(
    r: web::Reply<MemberRow>,
    session: web::UiSession,
    target: web::TargetRealm,
    org_id: u128,
    is_htmx: bool,
    records: Option<RowRecords>,
    message: Seq<char>,
    kind: web::FlashKind,
)
    requires
        tells(r, session, target, org_id, is_htmx, records, message, kind),
    ensures
        is_htmx ==> (records matches Some(rec) ==> (r matches web::Reply::Page(p)
            && p.hx_trigger@ == web::toast_json(message, kind) && p.row.org_id@
            == codec::hyphenated(org_id) && p.shows(
            session,
            target,
            org_id,
            rec,
            message,
            kind,
        ))),
        is_htmx && records is None ==> (r matches web::Reply::Toast { message: m, kind: k } && m@
            == message && k == kind),
        !is_htmx ==> (r matches web::Reply::RedirectFlash { url: u, message: m, kind: k } && u@
            == web::item_address(target, "organizations"@, org_id) && m@ == message && k == kind),
{
}

/// A search needs two characters beside white space, and looks for what stands
/// between it; with less nobody is shown.
pub proof fn law_searched(
    q: Seq<char>,
    shown: Vec<users::User>,
    found: Result<Vec<users::User>, web::EngineError>,
)
    ensures
        searched(q) is Some <==> text::trimmed(q).len() >= 2,
        searched(q) matches Some(s) ==> s == text::trimmed(q),
        shows_found(shown, q, found) ==> (text::trimmed(q).len() < 2 ==> shown@.len() == 0),
        shows_found(shown, q, found) ==> (found is Err ==> shown@.len() == 0),
        shows_found(shown, q, found) && text::trimmed(q).len() >= 2 ==> (found matches Ok(list)
            ==> shown == list),
{
}

/// The invitation that is sent again is the first one under that identifier;
/// there is none exactly where no invitation has it.
pub proof fn law_invitation_with(items: Seq<orgs::Invitation>, id: u128)
    ensures
        invitation_with(items, id) matches Some(found) ==> exists|k: int|
            {
                &&& 0 <= k < items.len()
                &&& #[trigger] items[k] == found
                &&& found.id == id
                &&& forall|j: int| 0 <= j < k ==> (#[trigger] items[j]).id != id
            },
        invitation_with(items, id) is None <==> forall|k: int|
            0 <= k < items.len() ==> (#[trigger] items[k]).id != id,
    decreases items.len(),
{
    if items.len() > 0 {
        if items[0].id == id {
            assert(invitation_with(items, id) == Some(items[0]));
        } else {
            let rest = items.skip(1);
            law_invitation_with(rest, id);
            assert forall|k: int| 0 <= k < rest.len() implies #[trigger] rest[k] == items[k + 1] by {}
            if let Some(found) = invitation_with(rest, id) {
                let k = choose|k: int|
                    {
                        &&& 0 <= k < rest.len()
                        &&& #[trigger] rest[k] == found
                        &&& found.id == id
                        &&& forall|j: int| 0 <= j < k ==> (#[trigger] rest[j]).id != id
                    };
                assert(items[k + 1] == found);
                assert forall|j: int| 0 <= j < k + 1 implies (#[trigger] items[j]).id != id by {
                    if j > 0 {
                        assert(rest[j - 1] == items[j]);
                    }
                }
            } else {
                assert forall|k: int| 0 <= k < items.len() implies (#[trigger] items[k]).id
                    != id by {
                    if k > 0 {
                        assert(rest[k - 1] == items[k]);
                    }
                }
            }
        }
    }
}

/// A permission is granted in the scope that was asked for, and within the
/// organization where none was.
pub proof fn law_member_scope(scope: Seq<char>, org_id: u128)
    ensures
        access::scope_meant(scope, access::uuid_reading()) matches Ok(s) ==> member_scope(
            scope,
            org_id,
        ) == s,
        access::scope_meant(scope, access::uuid_reading()) is Err ==> member_scope(scope, org_id)
            == access::Scope::Org(org_id),
{
}

/// What is read of members is limited.
pub proof fn law_member_limits()
    ensures
        FOUND_USERS == 10,
        COUNTED_MEMBERS == 1000,
        SOUGHT_INVITATIONS == 200,
{
}

} // verus!
