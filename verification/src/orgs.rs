//! Organizations: lists, creation, the organization page, editing, deletion
//! and invitations.

use crate::access;
use crate::audit;
use crate::codec;
use crate::members;
use crate::sessions;
use crate::text;
use crate::users;
use crate::web;
use vstd::prelude::*;
use vstd::string::*;

verus! {

// ---------------------------------------------------------------------------
// The model
// ---------------------------------------------------------------------------

/// Whether an organization is in use.
#[derive(Clone, Copy, PartialEq, Eq, Structural)]
pub enum OrganizationStatus {
    Active,
    Suspended,
}

impl OrganizationStatus {
    /// The name of a status.
    pub open spec fn name(self) -> Seq<char> {
        match self {
            OrganizationStatus::Active => "Active"@,
            OrganizationStatus::Suspended => "Suspended"@,
        }
    }

    /// The name of a status.
    pub fn label(self) -> (r: String)
        ensures
            r@ == self.name(),
    {
        match self {
            OrganizationStatus::Active => "Active".to_owned(),
            OrganizationStatus::Suspended => "Suspended".to_owned(),
        }
    }
}

/// The status that a form field names.
pub open spec fn org_status_of(s: Seq<char>) -> Option<OrganizationStatus> {
    if s == "Active"@ {
        Some(OrganizationStatus::Active)
    } else if s == "Suspended"@ {
        Some(OrganizationStatus::Suspended)
    } else {
        None
    }
}

/// Parses an organization status from a form field.
pub fn parse_org_status(s: &str) -> (r: Option<OrganizationStatus>)
    ensures
        r == org_status_of(s@),
{
    if text::same(s, "Active") {
        Some(OrganizationStatus::Active)
    } else if text::same(s, "Suspended") {
        Some(OrganizationStatus::Suspended)
    } else {
        None
    }
}

/// A status is read back from its name.
pub proof fn law_org_status_round_trip(status: OrganizationStatus)
    ensures
        org_status_of(status.name()) == Some(status),
{
    reveal_strlit("Active");
    reveal_strlit("Suspended");
    assert("Active"@[0] == 'A' && "Suspended"@[0] == 'S');
}

/// An organization as the engine knows it.
pub struct Organization {
    pub id: u128,
    pub name: String,
    pub slug: String,
    pub description: String,
    pub status: OrganizationStatus,
    pub max_members: Option<u32>,
}

/// An invitation as the engine knows it.
pub struct Invitation {
    pub id: u128,
    pub email: String,
    pub role: members::OrganizationRole,
}

// ---------------------------------------------------------------------------
// The list
// ---------------------------------------------------------------------------

/// Query parameters of the list.
pub struct OrgListParams {
    /// Where the page starts.
    pub cursor: Option<String>,
    /// What to search for in names and slugs.
    pub q: Option<String>,
}

/// Decides what the list asks the engine for: the items to search among, else a
/// page.
pub fn admin_orgs_list_query(params: &OrgListParams) -> (r: users::ListQuery)
    ensures
        users::asks_list(r, users::search_text(params.q), params.cursor, users::SEARCH_WINDOW),
{
    let q = access::or_empty(&params.q);
    users::list_query(q.as_str(), &params.cursor, users::SEARCH_WINDOW)
}

/// Whether a search finds an organization: by name or slug, ignoring the case
/// of ASCII letters.
pub open spec fn is_found(org: Organization, needle: Seq<char>) -> bool {
    text::occurs_nocase(org.name@, needle) || text::occurs_nocase(org.slug@, needle)
}

/// The organizations that a search finds.
pub open spec fn found_orgs(orgs: Seq<Organization>, needle: Seq<char>) -> Seq<Organization>
    decreases orgs.len(),
{
    if orgs.len() == 0 {
        orgs
    } else if is_found(orgs.last(), needle) {
        found_orgs(orgs.drop_last(), needle).push(orgs.last())
    } else {
        found_orgs(orgs.drop_last(), needle)
    }
}

/// A search lists exactly the organizations whose name or slug matches.
pub proof fn law_search(orgs: Seq<Organization>, needle: Seq<char>, org: Organization)
    ensures
        found_orgs(orgs, needle).contains(org) <==> orgs.contains(org) && is_found(org, needle),
    decreases orgs.len(),
{
    let r = found_orgs(orgs, needle);
    if orgs.len() > 0 {
        let rest = orgs.drop_last();
        let before = found_orgs(rest, needle);
        law_search(rest, needle, org);
        if r.contains(org) {
            let k = choose|k: int| 0 <= k < r.len() && r[k] == org;
            if k < before.len() {
                assert(before[k] == org);
                let i = choose|i: int| 0 <= i < rest.len() && rest[i] == org;
                assert(orgs[i] == org);
            } else {
                assert(orgs[orgs.len() - 1] == org);
            }
        }
        if orgs.contains(org) && is_found(org, needle) {
            let i = choose|i: int| 0 <= i < orgs.len() && orgs[i] == org;
            if i < rest.len() {
                assert(rest[i] == org);
                let k = choose|k: int| 0 <= k < before.len() && before[k] == org;
                assert(r[k] == org);
            } else {
                assert(r[r.len() - 1] == org);
            }
        }
    }
}

/// Keeps the organizations that a search finds.
pub fn search_orgs(orgs: Vec<Organization>, needle: &str) -> (r: Vec<Organization>)
    ensures
        r@ == found_orgs(orgs@, needle@),
{
    let ghost all = orgs@;
    let mut rest = orgs;
    let mut r: Vec<Organization> = Vec::new();
    let ghost mut n: int = 0;
    proof {
        assert(all.skip(0) =~= all);
        assert(all.take(0) =~= Seq::<Organization>::empty());
    }
    while rest.len() > 0
        invariant
            0 <= n <= all.len(),
            rest@ == all.skip(n),
            r@ == found_orgs(all.take(n), needle@),
        decreases rest.len(),
    {
        let org = rest.remove(0);
        proof {
            assert(rest@ =~= all.skip(n + 1));
            assert(all.take(n + 1).drop_last() =~= all.take(n));
            assert(all.take(n + 1).last() == org);
        }
        if text::contains_nocase(org.name.as_str(), needle) || text::contains_nocase(
            org.slug.as_str(),
            needle,
        ) {
            r.push(org);
        }
        proof {
            n = n + 1;
        }
    }
    proof {
        assert(all.take(n) =~= all);
    }
    r
}

/// The list of the organizations of a realm.
pub struct OrgListTemplate {
    pub organizations: Vec<Organization>,
    pub next_cursor: Option<String>,
    pub search_query: String,
    pub realm_name: String,
    pub realm_id_hex: String,
    pub active_tab: String,
    pub chrome: web::Chrome,
}

/// Shows the organizations of a realm: those that the search finds, or the
/// page.
pub fn admin_orgs_list(
    site: &web::Site,
    session: &web::UiSession,
    target: &web::TargetRealm,
    params: &OrgListParams,
    listed: Result<sessions::Page<Organization>, web::EngineError>,
) -> (r: web::Reply<OrgListTemplate>)
    ensures
        listed is Err ==> r is ServerError,
        listed matches Ok(page) ==> r is Page && {
            let p = r->Page_0;
            let q = users::search_text(params.q);
            &&& text::byte_len(q) >= 2 ==> p.organizations@ == found_orgs(page.items@, q)
                && p.next_cursor is None
            &&& text::byte_len(q) < 2 ==> p.organizations == page.items && p.next_cursor
                == page.next_cursor
            &&& p.search_query@ == q
            &&& p.realm_name@ == target.name@
            &&& p.realm_id_hex@ == codec::hyphenated(target.id)
            &&& p.active_tab@ == "organizations"@
            &&& p.chrome.is_admin_page(*site, *session, "realm-workspace"@)
            &&& p.chrome.flash is None
        },
{
    let page = match listed {
        Err(_) => return web::Reply::ServerError,
        Ok(page) => page,
    };
    let search_query = access::or_empty(&params.q);
    let (organizations, next_cursor) = if text::two_bytes_or_more(search_query.as_str()) {
        (search_orgs(page.items, search_query.as_str()), None)
    } else {
        (page.items, page.next_cursor)
    };
    web::Reply::Page(
        OrgListTemplate {
            organizations,
            next_cursor,
            search_query,
            realm_name: target.name.clone(),
            realm_id_hex: codec::uuid_text(target.id),
            active_tab: "organizations".to_owned(),
            chrome: web::Chrome::admin(site, session, "realm-workspace"),
        },
    )
}

// ---------------------------------------------------------------------------
// Creation
// ---------------------------------------------------------------------------

/// The page that creates an organization.
pub struct OrgNewTemplate {
    pub error: Option<String>,
    pub realm_name: String,
    pub realm_id_hex: String,
    pub form_name: String,
    pub form_slug: String,
    pub form_description: String,
    pub form_max_members: Option<u32>,
    pub active_tab: String,
    pub chrome: web::Chrome,
}

impl OrgNewTemplate {
    /// Whether the page is one of a realm.
    pub open spec fn is_for(
        self,
        site: web::Site,
        session: web::UiSession,
        target: web::TargetRealm,
    ) -> bool {
        &&& self.realm_name@ == target.name@
        &&& self.realm_id_hex@ == codec::hyphenated(target.id)
        &&& self.active_tab@ == "organizations"@
        &&& self.chrome.is_admin_page(site, session, "realm-workspace"@)
        &&& self.chrome.flash is None
    }
}

/// Shows the empty form.
pub fn admin_org_create_form(
    site: &web::Site,
    session: &web::UiSession,
    target: &web::TargetRealm,
) -> (r: web::Reply<OrgNewTemplate>)
    ensures
        r is Page && {
            let p = r->Page_0;
            &&& p.is_for(*site, *session, *target)
            &&& p.error is None
            &&& p.form_name@.len() == 0
            &&& p.form_slug@.len() == 0
            &&& p.form_description@.len() == 0
            &&& p.form_max_members is None
        },
{
    web::Reply::Page(
        OrgNewTemplate {
            error: None,
            realm_name: target.name.clone(),
            realm_id_hex: codec::uuid_text(target.id),
            form_name: String::new(),
            form_slug: String::new(),
            form_description: String::new(),
            form_max_members: None,
            active_tab: "organizations".to_owned(),
            chrome: web::Chrome::admin(site, session, "realm-workspace"),
        },
    )
}

/// The form that creates an organization.
pub struct CreateOrgForm {
    pub name: String,
    pub slug: String,
    pub description: String,
    pub max_members: Option<u32>,
    pub csrf: String,
}

/// A description that says something.
pub open spec fn filled_in(s: Seq<char>) -> Option<Seq<char>> {
    if text::trimmed(s).len() == 0 {
        None
    } else {
        Some(s)
    }
}

/// Takes a field that says something; white space alone says nothing.
pub fn filled(s: &str) -> (r: Option<String>)
    ensures
        text::opt_text(r) == filled_in(s@),
{
    if text::trim(s).as_str().is_empty() {
        None
    } else {
        Some(s.to_owned())
    }
}

/// What the engine is asked to create.
pub struct CreateOrganizationRequest {
    pub name: String,
    pub slug: String,
    pub description: Option<String>,
    /// The limit on members; without one there is no configuration at all.
    pub max_members: Option<u32>,
}

/// Reads what to create.
pub fn admin_org_create_submit_request(csrf_ok: bool, form: &CreateOrgForm) -> (r: Result<
    CreateOrganizationRequest,
    web::Reply<OrgNewTemplate>,
>)
    ensures
        !csrf_ok ==> r is Err && r->Err_0 is Forbidden,
        csrf_ok ==> r is Ok && {
            let q = r->Ok_0;
            &&& q.name@ == form.name@
            &&& q.slug@ == form.slug@
            &&& text::opt_text(q.description) == filled_in(form.description@)
            &&& q.max_members == form.max_members
        },
{
    if !csrf_ok {
        return Err(web::Reply::Forbidden);
    }
    Ok(
        CreateOrganizationRequest {
            name: form.name.clone(),
            slug: form.slug.clone(),
            description: filled(form.description.as_str()),
            max_members: form.max_members,
        },
    )
}

/// Tells who becomes the first owner: the creator, where the creator lives in
/// the realm.
pub fn admin_org_create_submit_owner(session: &web::UiSession, target: &web::TargetRealm) -> (r:
    Option<u128>)
    ensures
        r == if session.realm_id == target.id {
            Some(session.user_id)
        } else {
            None
        },
{
    if session.realm_id == target.id {
        Some(session.user_id)
    } else {
        None
    }
}

/// What the form says after a failure.
pub open spec fn create_org_error(e: web::EngineError) -> Seq<char> {
    match e.kind {
        web::ErrorKind::DuplicateOrgSlug => "An organization with that slug already exists."@,
        _ => "Unable to create organization: "@ + e.text@,
    }
}

/// The event of an operation on an organization.
pub open spec fn org_event(
    session: web::UiSession,
    realm_id: u128,
    action: web::AuditAction,
    org_id: u128,
) -> web::AuditEventView {
    web::ui_event(
        session,
        realm_id,
        action,
        "organization"@,
        codec::hyphenated(org_id),
        web::via_ui(),
    )
}

/// Answers after the engine tried to create an organization. `owner_added`
/// tells whether the creator was made its owner.
pub fn admin_org_create_submit(
    site: &web::Site,
    session: &web::UiSession,
    target: &web::TargetRealm,
    form: &CreateOrgForm,
    created: Result<u128, web::EngineError>,
    owner_added: bool,
) -> (r: web::Outcome<OrgNewTemplate>)
    ensures
        match created {
            Ok(org_id) => {
                let creation = org_event(
                    *session,
                    target.id,
                    web::AuditAction::OrgCreated,
                    org_id,
                );
                &&& r.reply.redirects(web::item_address(*target, "organizations"@, org_id))
                &&& r.log() == if session.realm_id == target.id && owner_added {
                    seq![
                        creation,
                        members::member_event(
                            *session,
                            target.id,
                            org_id,
                            session.user_id,
                            true,
                            members::OrganizationRole::Owner,
                        ),
                    ]
                } else {
                    seq![creation]
                }
            },
            Err(e) => r.is_silent() && r.reply is Page && {
                let p = r.reply->Page_0;
                &&& p.is_for(*site, *session, *target)
                &&& text::opt_text(p.error) == Some(create_org_error(e))
                &&& p.form_name@ == form.name@
                &&& p.form_slug@ == form.slug@
                &&& p.form_description@ == form.description@
                &&& p.form_max_members == form.max_members
            },
        },
{
    match created {
        Ok(org_id) => {
            let mut events: Vec<web::AuditEvent> = Vec::new();
            let creation = audit::audit_org_event(session, target.id, org_id, "create");
            if let Some(event) = creation {
                events.push(event);
            }
            if session.realm_id == target.id && owner_added {
                events.push(
                    members::mirror_org_member_added(
                        session,
                        target.id,
                        org_id,
                        session.user_id,
                        members::OrganizationRole::Owner,
                    ),
                );
            }
            let r = web::Outcome {
                reply: web::Reply::Redirect(web::item_url(target, "organizations", org_id)),
                events,
            };
            proof {
                let first = org_event(*session, target.id, web::AuditAction::OrgCreated, org_id);
                assert(creation is Some && creation->0@ == first);
                if session.realm_id == target.id && owner_added {
                    assert(r.log() =~= seq![
                        first,
                        members::member_event(
                            *session,
                            target.id,
                            org_id,
                            session.user_id,
                            true,
                            members::OrganizationRole::Owner,
                        ),
                    ]);
                } else {
                    assert(r.log() =~= seq![first]);
                }
            }
            r
        },
        Err(e) => {
            let error = match &e.kind {
                web::ErrorKind::DuplicateOrgSlug =>
                    "An organization with that slug already exists.".to_owned(),
                _ => "Unable to create organization: ".to_owned().concat(e.text.as_str()),
            };
            web::Outcome::silent(
                web::Reply::Page(
                    OrgNewTemplate {
                        error: Some(error),
                        realm_name: target.name.clone(),
                        realm_id_hex: codec::uuid_text(target.id),
                        form_name: form.name.clone(),
                        form_slug: form.slug.clone(),
                        form_description: form.description.clone(),
                        form_max_members: form.max_members,
                        active_tab: "organizations".to_owned(),
                        chrome: web::Chrome::admin(site, session, "realm-workspace"),
                    },
                ),
            )
        },
    }
}

// ---------------------------------------------------------------------------
// The organization page
// ---------------------------------------------------------------------------

/// A membership with what the engines know of the member.
pub struct MemberRecord {
    pub membership: members::Membership,
    pub person: Option<members::Person>,
    /// The roles held anywhere in the realm.
    pub held: Vec<access::HeldRole>,
    /// The permissions granted anywhere in the realm.
    pub grants: Vec<access::Grant>,
}

/// The memberships of records.
pub open spec fn memberships_of(records: Seq<MemberRecord>) -> Seq<members::Membership> {
    Seq::new(records.len(), |i: int| records[i].membership)
}

/// Whether a member is shown with the access that the record tells of, in an
/// organization with `owner_count` owners.
pub open spec fn shows_member(
    m: members::MemberWithAccess,
    record: MemberRecord,
    org_id: u128,
    owner_count: nat,
    roles: Seq<access::Role>,
) -> bool {
    let held = members::member_roles(record.held@, org_id);
    let grants = members::member_grants(record.grants@, org_id);
    &&& members::shows_person(m.view, record.membership, record.person)
    &&& m.is_last_owner == members::is_only_owner(record.membership, owner_count)
    &&& text::views(m.rbac_roles@) == held
    &&& text::views(m.extra_perms@) == grants
    &&& text::texts(m.available_permissions@) == members::org_grantable(roles, held, grants)
}

/// Shows a member.
pub fn build_member(
    record: &MemberRecord,
    org_id: u128,
    owner_count: usize,
    roles: &Vec<access::Role>,
) -> (r: members::MemberWithAccess)
    ensures
        shows_member(r, *record, org_id, owner_count as nat, roles@),
{
    let is_last_owner = record.membership.role == members::OrganizationRole::Owner && owner_count
        == 1;
    let view = members::member_view(record.membership, &record.person);
    members::build_member_with_access(
        org_id,
        view,
        is_last_owner,
        &record.held,
        &record.grants,
        roles,
    )
}

/// Query parameters of the organization page.
pub struct OrgDetailParams {
    /// A message.
    pub flash: Option<String>,
    /// Its kind: "success" or "error".
    pub flash_kind: Option<String>,
    /// The tab to open.
    pub tab: Option<String>,
}

/// The tab that a query opens; what names no tab opens the overview.
pub open spec fn opened_tab(tab: Option<Seq<char>>) -> Seq<char> {
    if tab == Some("members"@) {
        "members"@
    } else if tab == Some("invitations"@) {
        "invitations"@
    } else if tab == Some("danger"@) {
        "danger"@
    } else {
        "overview"@
    }
}

fn open_tab(tab: &Option<String>) -> (r: String)
    ensures
        r@ == opened_tab(text::opt_text(*tab)),
{
    match tab {
        None => "overview".to_owned(),
        Some(t) => if text::same(t.as_str(), "members") {
            "members".to_owned()
        } else if text::same(t.as_str(), "invitations") {
            "invitations".to_owned()
        } else if text::same(t.as_str(), "danger") {
            "danger".to_owned()
        } else {
            "overview".to_owned()
        },
    }
}

/// The organization page.
pub struct OrgDetailTemplate {
    pub org: Organization,
    pub realm_name: String,
    pub realm_id_hex: String,
    pub org_id: String,
    pub members: Vec<members::MemberWithAccess>,
    pub member_count: usize,
    pub invitations: Vec<Invitation>,
    pub max_members: Option<u32>,
    pub available_roles: Vec<access::AvailableRole>,
    pub active_subtab: String,
    pub active_tab: String,
    pub chrome: web::Chrome,
}

/// What the engines tell of an organization; empty where they could not tell.
pub struct OrgRecords {
    pub members: Vec<MemberRecord>,
    pub invitations: Vec<Invitation>,
    /// The roles of the realm that can be assigned.
    pub roles: Vec<access::Role>,
    /// The roles of the realm whose permissions can be granted.
    pub permission_roles: Vec<access::Role>,
}

/// Whether members are shown as records tell, in their order.
pub open spec fn shows_members(
    shown: Seq<members::MemberWithAccess>,
    records: Seq<MemberRecord>,
    org_id: u128,
    roles: Seq<access::Role>,
) -> bool {
    &&& shown.len() == records.len()
    &&& forall|i: int|
        0 <= i < shown.len() ==> shows_member(
            #[trigger] shown[i],
            records[i],
            org_id,
            members::owners(memberships_of(records)),
            roles,
        )
}

/// Shows the members of an organization, each with the number of owners in
/// view.
pub fn build_members(records: &Vec<MemberRecord>, org_id: u128, roles: &Vec<access::Role>) -> (r:
    Vec<members::MemberWithAccess>)
    ensures
        shows_members(r@, records@, org_id, roles@),
{
    let mut memberships: Vec<members::Membership> = Vec::new();
    let mut k: usize = 0;
    while k < records.len()
        invariant
            k <= records.len(),
            memberships.len() == k,
            forall|j: int| 0 <= j < k ==> #[trigger] memberships@[j] == records@[j].membership,
        decreases records.len() - k,
    {
        memberships.push(records[k].membership);
        k += 1;
    }
    proof {
        assert(memberships@ =~= memberships_of(records@));
    }
    let owner_count: usize = members::count_org_owners(&memberships);
    let mut out: Vec<members::MemberWithAccess> = Vec::new();
    let mut i: usize = 0;
    while i < records.len()
        invariant
            i <= records.len(),
            out.len() == i,
            owner_count == members::owners(memberships_of(records@)),
            forall|j: int|
                0 <= j < i ==> shows_member(
                    #[trigger] out@[j],
                    records@[j],
                    org_id,
                    owner_count as nat,
                    roles@,
                ),
        decreases records.len() - i,
    {
        out.push(build_member(&records[i], org_id, owner_count, roles));
        i += 1;
    }
    out
}

/// Reads which organization a page is about.
pub fn org_request(oid: &str) -> (r: Result<u128, web::Reply<()>>)
    ensures
        web::names_one(r, true, oid@, "Organization not found"@),
{
    web::require_one(true, oid, "Organization not found")
}

/// The message of the page: that of the cookie, else that of the query.
pub open spec fn page_flash(
    shown: Option<web::Flash>,
    cookie: Option<web::Flash>,
    message: Option<String>,
    kind: Option<String>,
) -> bool {
    match cookie {
        Some(_) => shown == cookie,
        None => match message {
            Some(m) => shown is Some && shown->0.says(
                web::asked_kind(text::opt_text(kind)),
                m@,
            ),
            None => shown is None,
        },
    }
}

/// Picks the message of a page.
pub fn pick_flash(cookie: Option<web::Flash>, message: &Option<String>, kind: &Option<String>) -> (r:
    Option<web::Flash>)
    ensures
        page_flash(r, cookie, *message, *kind),
{
    match cookie {
        Some(f) => Some(f),
        None => web::flash_from_query(message, kind),
    }
}

/// The number of members on the page of an organization.
pub const SHOWN_MEMBERS: usize = 100;

/// The number of invitations on the page of an organization.
pub const SHOWN_INVITATIONS: usize = 100;

/// Tells whether the response has to clear the cookie that carries a message:
/// whenever the page showed one, so that it is shown once.
pub fn clears_flash(page: &OrgDetailTemplate) -> (r: bool)
    ensures
        r == (page.chrome.flash is Some),
{
    page.chrome.flash.is_some()
}

/// A message is shown once: where a redirect left one, the page shows it and the
/// cookie is cleared; where neither it nor the address holds one, the cookie is
/// left alone.
pub proof fn law_flash_is_shown_once(
    page: OrgDetailTemplate,
    cookie: Option<web::Flash>,
    params: OrgDetailParams,
)
    requires
        page_flash(page.chrome.flash, cookie, params.flash, params.flash_kind),
    ensures
        cookie is Some ==> page.chrome.flash == cookie,
        page.chrome.flash is Some <==> cookie is Some || params.flash is Some,
{
}

/// Shows an organization. `cookie` is the message that a redirect left.
pub fn admin_org_detail(
    site: &web::Site,
    session: &web::UiSession,
    target: &web::TargetRealm,
    org_id: u128,
    params: &OrgDetailParams,
    cookie: Option<web::Flash>,
    found: Result<Option<Organization>, web::EngineError>,
    records: OrgRecords,
) -> (r: web::Reply<OrgDetailTemplate>)
    ensures
        match found {
            Err(_) => r is ServerError,
            Ok(None) => r.not_found("Organization not found"@),
            Ok(Some(org)) => r is Page && {
                let p = r->Page_0;
                &&& p.org == org
                &&& p.realm_name@ == target.name@
                &&& p.realm_id_hex@ == codec::hyphenated(target.id)
                &&& p.org_id@ == codec::hyphenated(org_id)
                &&& shows_members(
                    p.members@,
                    records.members@,
                    org_id,
                    records.permission_roles@,
                )
                &&& p.member_count == records.members@.len()
                &&& p.invitations == records.invitations
                &&& p.max_members == org.max_members
                &&& text::views(p.available_roles@) == access::role_choices(
                    access::org_roles(records.roles@),
                )
                &&& p.active_subtab@ == opened_tab(text::opt_text(params.tab))
                &&& p.active_tab@ == "organizations"@
                &&& p.chrome.is_admin_page(*site, *session, "realm-workspace"@)
                &&& page_flash(p.chrome.flash, cookie, params.flash, params.flash_kind)
            },
        },
{
    let org = match found {
        Err(_) => return web::Reply::ServerError,
        Ok(None) => return web::Reply::missing("Organization not found"),
        Ok(Some(org)) => org,
    };
    let shown = build_members(&records.members, org_id, &records.permission_roles);
    let member_count: usize = shown.len();
    let flash = pick_flash(cookie, &params.flash, &params.flash_kind);
    web::Reply::Page(
        OrgDetailTemplate {
            realm_name: target.name.clone(),
            realm_id_hex: codec::uuid_text(target.id),
            org_id: codec::uuid_text(org_id),
            members: shown,
            member_count,
            invitations: records.invitations,
            max_members: org.max_members,
            available_roles: access::build_org_available_roles(&records.roles),
            active_subtab: open_tab(&params.tab),
            active_tab: "organizations".to_owned(),
            org,
            chrome: web::Chrome::new(site, session, "realm-workspace", true, false, flash),
        },
    )
}

// ---------------------------------------------------------------------------
// Editing
// ---------------------------------------------------------------------------

/// The page that edits an organization.
pub struct OrgEditTemplate {
    pub org: Organization,
    pub realm_name: String,
    pub realm_id_hex: String,
    pub error: Option<String>,
    pub form_name: String,
    pub form_description: String,
    pub form_status: String,
    pub form_max_members: Option<u32>,
    pub active_tab: String,
    pub chrome: web::Chrome,
}

/// Shows the form, filled in with what the organization is.
pub fn admin_org_edit_form(
    site: &web::Site,
    session: &web::UiSession,
    target: &web::TargetRealm,
    found: Result<Option<Organization>, web::EngineError>,
) -> (r: web::Reply<OrgEditTemplate>)
    ensures
        match found {
            Err(_) => r is ServerError,
            Ok(None) => r.not_found("Organization not found"@),
            Ok(Some(org)) => r is Page && {
                let p = r->Page_0;
                &&& p.org == org
                &&& p.realm_name@ == target.name@
                &&& p.realm_id_hex@ == codec::hyphenated(target.id)
                &&& p.error is None
                &&& p.form_name@ == org.name@
                &&& p.form_description@ == org.description@
                &&& p.form_status@ == org.status.name()
                &&& p.form_max_members == org.max_members
                &&& p.active_tab@ == "organizations"@
                &&& p.chrome.is_admin_page(*site, *session, "realm-workspace"@)
                &&& p.chrome.flash is None
            },
        },
{
    match found {
        Err(_) => web::Reply::ServerError,
        Ok(None) => web::Reply::missing("Organization not found"),
        Ok(Some(org)) => web::Reply::Page(
            OrgEditTemplate {
                realm_name: target.name.clone(),
                realm_id_hex: codec::uuid_text(target.id),
                error: None,
                form_name: org.name.clone(),
                form_description: org.description.clone(),
                form_status: org.status.label(),
                form_max_members: org.max_members,
                active_tab: "organizations".to_owned(),
                org,
                chrome: web::Chrome::admin(site, session, "realm-workspace"),
            },
        ),
    }
}

/// The form that edits an organization.
pub struct EditOrgForm {
    pub name: String,
    pub description: String,
    pub status: String,
    pub max_members: Option<u32>,
    pub csrf: String,
}

/// The configuration of an organization.
#[derive(Clone, Copy, PartialEq, Eq, Structural)]
pub struct OrganizationConfig {
    pub max_members: Option<u32>,
}

/// What the engine is asked to change; what is absent stays as it is.
pub struct UpdateOrganizationRequest {
    pub org_id: u128,
    pub name: Option<String>,
    pub description: Option<String>,
    pub status: Option<OrganizationStatus>,
    pub config: Option<OrganizationConfig>,
}

/// Reads what to change of which organization.
pub fn admin_org_edit_submit_request(csrf_ok: bool, oid: &str, form: &EditOrgForm) -> (r: Result<
    UpdateOrganizationRequest,
    web::Reply<()>,
>)
    ensures
        !csrf_ok ==> r is Err && r->Err_0 is Forbidden,
        csrf_ok ==> match codec::uuid_of(oid@) {
            None => r is Err && r->Err_0.not_found("Organization not found"@),
            Some(id) => r is Ok && {
                let q = r->Ok_0;
                &&& q.org_id == id
                &&& text::opt_text(q.name) == Some(form.name@)
                &&& text::opt_text(q.description) == filled_in(form.description@)
                &&& q.status == org_status_of(form.status@)
                &&& q.config == Some(OrganizationConfig { max_members: form.max_members })
            },
        },
{
    let org_id: u128 = match web::require_one(csrf_ok, oid, "Organization not found") {
        Ok(id) => id,
        Err(reply) => return Err(reply),
    };
    Ok(
        UpdateOrganizationRequest {
            org_id,
            name: Some(form.name.clone()),
            description: filled(form.description.as_str()),
            status: parse_org_status(form.status.as_str()),
            config: Some(OrganizationConfig { max_members: form.max_members }),
        },
    )
}

/// Answers after the engine tried to change an organization.
pub fn admin_org_edit_submit(
    session: &web::UiSession,
    target: &web::TargetRealm,
    org_id: u128,
    updated: Result<(), web::EngineError>,
) -> (r: web::Outcome<()>)
    ensures
        match updated {
            Ok(_) => {
                &&& r.log() == seq![
                    org_event(*session, target.id, web::AuditAction::OrgUpdated, org_id),
                ]
                &&& r.reply.redirects(web::item_address(*target, "organizations"@, org_id))
            },
            Err(e) => r.is_silent() && if e.kind is OrganizationNotFound {
                r.reply.not_found("Organization not found"@)
            } else {
                r.reply is ServerError
            },
        },
{
    match updated {
        Ok(_) => {
            let event = audit::audit_org_event(session, target.id, org_id, "update");
            proof {
                reveal_strlit("create");
                reveal_strlit("update");
                assert("create"@[0] == 'c' && "update"@[0] == 'u');
            }
            web::Outcome::noted(
                web::Reply::Redirect(web::item_url(target, "organizations", org_id)),
                event,
            )
        },
        Err(e) => match e.kind {
            web::ErrorKind::OrganizationNotFound => web::Outcome::silent(
                web::Reply::missing("Organization not found"),
            ),
            _ => web::Outcome::silent(web::Reply::ServerError),
        },
    }
}

// ---------------------------------------------------------------------------
// Status
// ---------------------------------------------------------------------------

/// Redirects to the page of an organization with a message.
pub fn org_redirect_flash<P>(
    org_id: u128,
    target: &web::TargetRealm,
    message: &str,
    kind: web::FlashKind,
) -> (r: web::Reply<P>)
    ensures
        r.flashes(web::item_address(*target, "organizations"@, org_id), message@, kind),
{
    let url = web::item_url(target, "organizations", org_id);
    web::Reply::flash(url.as_str(), message, kind)
}

/// The form that suspends or resumes an organization.
pub struct StatusToggleForm {
    /// The status to set: "Active" or "Suspended".
    pub status: String,
    pub csrf: String,
}

/// Reads which status to give to which organization.
pub fn admin_org_status_toggle_request(
    csrf_ok: bool,
    target: &web::TargetRealm,
    oid: &str,
    form: &StatusToggleForm,
) -> (r: Result<UpdateOrganizationRequest, web::Reply<()>>)
    ensures
        !csrf_ok ==> r is Err && r->Err_0 is Forbidden,
        csrf_ok ==> match codec::uuid_of(oid@) {
            None => r is Err && r->Err_0.not_found("Organization not found"@),
            Some(id) => match org_status_of(form.status@) {
                None => r is Err && r->Err_0.flashes(
                    web::item_address(*target, "organizations"@, id),
                    "Unknown organization status"@,
                    web::FlashKind::Error,
                ),
                Some(status) => r is Ok && r->Ok_0 == (UpdateOrganizationRequest {
                    org_id: id,
                    name: None,
                    description: None,
                    status: Some(status),
                    config: None,
                }),
            },
        },
{
    let org_id: u128 = match web::require_one(csrf_ok, oid, "Organization not found") {
        Ok(id) => id,
        Err(reply) => return Err(reply),
    };
    match parse_org_status(form.status.as_str()) {
        Some(status) => Ok(
            UpdateOrganizationRequest {
                org_id,
                name: None,
                description: None,
                status: Some(status),
                config: None,
            },
        ),
        None => Err(
            org_redirect_flash(
                org_id,
                target,
                "Unknown organization status",
                web::FlashKind::Error,
            ),
        ),
    }
}

/// Answers after the engine tried to change the status of an organization.
pub fn admin_org_status_toggle(
    target: &web::TargetRealm,
    org_id: u128,
    status: OrganizationStatus,
    updated: Result<(), web::EngineError>,
) -> (r: web::Outcome<()>)
    ensures
        r.is_silent(),
        match updated {
            Ok(_) => r.reply.flashes(
                web::item_address(*target, "organizations"@, org_id),
                match status {
                    OrganizationStatus::Active => "Organization resumed"@,
                    OrganizationStatus::Suspended => "Organization suspended"@,
                },
                web::FlashKind::Success,
            ),
            Err(e) => if e.kind is OrganizationNotFound {
                r.reply.not_found("Organization not found"@)
            } else {
                r.reply.flashes(
                    web::item_address(*target, "organizations"@, org_id),
                    "Failed to change status"@,
                    web::FlashKind::Error,
                )
            },
        },
{
    let reply = match updated {
        Ok(_) => {
            let label = match status {
                OrganizationStatus::Active => "Organization resumed",
                OrganizationStatus::Suspended => "Organization suspended",
            };
            org_redirect_flash(org_id, target, label, web::FlashKind::Success)
        },
        Err(e) => match e.kind {
            web::ErrorKind::OrganizationNotFound => web::Reply::missing("Organization not found"),
            _ => org_redirect_flash(
                org_id,
                target,
                "Failed to change status",
                web::FlashKind::Error,
            ),
        },
    };
    web::Outcome::silent(reply)
}

// ---------------------------------------------------------------------------
// Deletion
// ---------------------------------------------------------------------------

/// The form that deletes something.
pub struct DeleteForm {
    pub csrf: String,
}

/// Reads which organization to delete.
pub fn admin_org_delete_request(csrf_ok: bool, oid: &str) -> (r: Result<u128, web::Reply<()>>)
    ensures
        web::names_one(r, csrf_ok, oid@, "Organization not found"@),
{
    web::require_one(csrf_ok, oid, "Organization not found")
}

/// Answers after the engine tried to delete an organization.
pub fn admin_org_delete(
    session: &web::UiSession,
    target: &web::TargetRealm,
    org_id: u128,
    deleted: Result<(), web::EngineError>,
) -> (r: web::Outcome<()>)
    ensures
        match deleted {
            Ok(_) => {
                &&& r.log() == seq![
                    org_event(*session, target.id, web::AuditAction::OrgDeleted, org_id),
                ]
                &&& r.reply.redirects(web::list_address(*target, "organizations"@))
            },
            Err(e) => r.is_silent() && if e.kind is OrganizationNotFound {
                r.reply.not_found("Organization not found"@)
            } else {
                r.reply is ServerError
            },
        },
{
    match deleted {
        Ok(_) => {
            let event = deletion_event(session, target.id, org_id);
            web::Outcome::logged(
                web::Reply::Redirect(web::list_url(target, "organizations")),
                event,
            )
        },
        Err(e) => match e.kind {
            web::ErrorKind::OrganizationNotFound => web::Outcome::silent(
                web::Reply::missing("Organization not found"),
            ),
            _ => web::Outcome::silent(web::Reply::ServerError),
        },
    }
}

fn deletion_event(session: &web::UiSession, realm_id: u128, org_id: u128) -> (r: web::AuditEvent)
    ensures
        r@ == org_event(*session, realm_id, web::AuditAction::OrgDeleted, org_id),
{
    web::record_ui(session, realm_id, web::AuditAction::OrgDeleted, "organization", org_id)
}

/// The form that deletes several organizations.
pub struct BulkDeleteOrgsForm {
    /// Organization UUIDs, separated by commas.
    pub ids: String,
    pub csrf: String,
}

/// The organizations that a list of texts names; texts that name none are
/// passed over.
pub open spec fn named_orgs(pieces: Seq<Seq<char>>) -> Seq<u128>
    decreases pieces.len(),
{
    if pieces.len() == 0 {
        Seq::empty()
    } else {
        let before = named_orgs(pieces.drop_last());
        let piece = text::trimmed(pieces.last());
        if piece.len() == 0 {
            before
        } else {
            match codec::uuid_of(piece) {
                Some(id) => before.push(id),
                None => before,
            }
        }
    }
}

/// Reads which organizations to delete.
pub fn admin_orgs_bulk_delete_request(csrf_ok: bool, form: &BulkDeleteOrgsForm) -> (r: Result<
    Vec<u128>,
    web::Reply<()>,
>)
    ensures
        !csrf_ok ==> r is Err && r->Err_0 is Forbidden,
        csrf_ok ==> r is Ok && r->Ok_0@ == named_orgs(
            text::split_pieces(form.ids@, text::Separator::Char(',')),
        ),
{
    if !csrf_ok {
        return Err(web::Reply::Forbidden);
    }
    let pieces = text::split(form.ids.as_str(), text::Separator::Char(','));
    let ghost all = text::texts(pieces@);
    let mut ids: Vec<u128> = Vec::new();
    let mut i: usize = 0;
    proof {
        assert(all.take(0) =~= Seq::<Seq<char>>::empty());
    }
    while i < pieces.len()
        invariant
            all == text::texts(pieces@),
            i <= pieces.len(),
            ids@ == named_orgs(all.take(i as int)),
        decreases pieces.len() - i,
    {
        proof {
            assert(all.take(i + 1).drop_last() =~= all.take(i as int));
            assert(all.take(i + 1).last() == pieces@[i as int]@);
        }
        let piece = text::trim(pieces[i].as_str());
        if !piece.as_str().is_empty() {
            if let Some(id) = codec::parse_uuid(piece.as_str()) {
                ids.push(id);
            }
        }
        i += 1;
    }
    proof {
        assert(all.take(pieces@.len() as int) =~= all);
    }
    Ok(ids)
}

/// An organization that was to be deleted, and what came of it.
pub struct OrgDeletion {
    pub org_id: u128,
    pub result: Result<(), web::EngineError>,
}

/// One event for each organization that was deleted.
pub open spec fn bulk_events(
    session: web::UiSession,
    realm_id: u128,
    deletions: Seq<OrgDeletion>,
) -> Seq<web::AuditEventView>
    decreases deletions.len(),
{
    if deletions.len() == 0 {
        Seq::empty()
    } else {
        let before = bulk_events(session, realm_id, deletions.drop_last());
        let d = deletions.last();
        if d.result is Ok {
            before.push(org_event(session, realm_id, web::AuditAction::OrgDeleted, d.org_id))
        } else {
            before
        }
    }
}

/// Answers after the engine tried to delete several organizations; a failure
/// on one stops nothing.
pub fn admin_orgs_bulk_delete(
    session: &web::UiSession,
    target: &web::TargetRealm,
    deletions: &Vec<OrgDeletion>,
) -> (r: web::Outcome<()>)
    ensures
        r.reply.redirects(web::list_address(*target, "organizations"@)),
        r.log() == bulk_events(*session, target.id, deletions@),
{
    let mut events: Vec<web::AuditEvent> = Vec::new();
    let mut i: usize = 0;
    proof {
        assert(web::events_of(events@) =~= bulk_events(*session, target.id, deletions@.take(0)));
    }
    while i < deletions.len()
        invariant
            i <= deletions.len(),
            web::events_of(events@) == bulk_events(
                *session,
                target.id,
                deletions@.take(i as int),
            ),
        decreases deletions.len() - i,
    {
        let ghost before = events@;
        proof {
            assert(deletions@.take(i + 1).drop_last() =~= deletions@.take(i as int));
        }
        if deletions[i].result.is_ok() {
            let event = deletion_event(session, target.id, deletions[i].org_id);
            events.push(event);
            proof {
                assert(web::events_of(events@) =~= web::events_of(before).push(event@));
            }
        }
        i += 1;
    }
    proof {
        assert(deletions@.take(deletions@.len() as int) =~= deletions@);
    }
    web::Outcome { reply: web::Reply::Redirect(web::list_url(target, "organizations")), events }
}

/// Where the page is one of a realm: each part of what that says.
pub proof fn law_org_new_template_is_for(
    page: OrgNewTemplate,
    site: web::Site,
    session: web::UiSession,
    target: web::TargetRealm,
)
    requires
        page.is_for(site, session, target),
    ensures
        page.realm_name@ == target.name@,
        page.realm_id_hex@ == codec::hyphenated(target.id),
        page.active_tab@ == "organizations"@,
        page.chrome.is_admin_page(site, session, "realm-workspace"@),
        page.chrome.flash is None,
{
}

/// Where members are shown as records tell, in their order: each part of what
/// that says.
pub proof fn law_shows_members(
    shown: Seq<members::MemberWithAccess>,
    records: Seq<MemberRecord>,
    org_id: u128,
    roles: Seq<access::Role>,
)
    requires
        shows_members(shown, records, org_id, roles),
    ensures
        shown.len() == records.len(),
        forall|i: int|
            0 <= i < shown.len() ==> shows_member(
                #[trigger] shown[i],
                records[i],
                org_id,
                members::owners(memberships_of(records)),
                roles,
            ),
{
}

/// One for each, in order: the memberships of records.
pub proof fn law_memberships_of(records: Seq<MemberRecord>, i: int)
    ensures
        memberships_of(records).len() == records.len(),
        0 <= i < records.len() ==> memberships_of(records)[i] == records[i].membership,
{
}

/// A status goes by its own name, and no other word is a status.
pub proof fn law_org_status(status: OrganizationStatus, word: Seq<char>)
    ensures
        status is Active ==> status.name() == "Active"@,
        status is Suspended ==> status.name() == "Suspended"@,
        org_status_of(word) == Some(OrganizationStatus::Active) <==> word == "Active"@,
        org_status_of(word) == Some(OrganizationStatus::Suspended) <==> word == "Suspended"@,
{
    reveal_strlit("Active");
    reveal_strlit("Suspended");
    assert("Active"@.len() == 6 && "Suspended"@.len() == 9);
}

/// A search finds exactly the organizations whose name or slug holds the text,
/// whatever the case, in their order.
pub proof fn law_found_orgs(orgs: Seq<Organization>, needle: Seq<char>)
    ensures
        found_orgs(orgs, needle) == orgs.filter(
            |o: Organization|
                text::occurs_nocase(o.name@, needle) || text::occurs_nocase(o.slug@, needle),
        ),
    decreases orgs.len(),
{
    reveal(Seq::filter);
    if orgs.len() > 0 {
        law_found_orgs(orgs.drop_last(), needle);
    }
}

/// A field that holds nothing but white space gives nothing; any other is taken
/// as it is.
pub proof fn law_filled_in(s: Seq<char>)
    ensures
        filled_in(s) is None <==> text::trimmed(s).len() == 0,
        filled_in(s) matches Some(v) ==> v == s,
{
}

/// A refused slug is told as such, any other error with the words of the engine.
pub proof fn law_create_org_error(e: web::EngineError)
    ensures
        e.kind is DuplicateOrgSlug ==> create_org_error(e)
            == "An organization with that slug already exists."@,
        !(e.kind is DuplicateOrgSlug) ==> create_org_error(e) == "Unable to create organization: "@
            + e.text@,
{
}

/// What happens to an organization is recorded of it, in its realm.
pub proof fn law_org_event(
    session: web::UiSession,
    realm_id: u128,
    action: web::AuditAction,
    org_id: u128,
)
    ensures
        ({
            let e = org_event(session, realm_id, action, org_id);
            &&& e.realm_id == realm_id
            &&& e.actor == codec::hyphenated(session.user_id)
            &&& e.action == action
            &&& e.resource_type == "organization"@
            &&& e.resource_id == codec::hyphenated(org_id)
            &&& web::told(e.metadata, "via"@) == Some(web::MetaView::Text("ui"@))
        }),
{
    web::law_ui_event(
        session,
        realm_id,
        action,
        "organization"@,
        codec::hyphenated(org_id),
        web::via_ui(),
    );
}

/// A member is shown as the person, with the roles and the permissions held in
/// this organization and what can still be granted there; as the last owner where
/// nobody else owns it.
pub proof fn law_shows_member(
    m: members::MemberWithAccess,
    record: MemberRecord,
    org_id: u128,
    owner_count: nat,
    roles: Seq<access::Role>,
)
    requires
        shows_member(m, record, org_id, owner_count, roles),
    ensures
        m.view.membership == record.membership,
        record.person matches Some(p) ==> m.view.user_email@ == p.email@,
        m.is_last_owner <==> record.membership.role is Owner && owner_count == 1,
        text::views(m.rbac_roles@) == members::member_roles(record.held@, org_id),
        text::views(m.extra_perms@) == members::member_grants(record.grants@, org_id),
        text::texts(m.available_permissions@) == members::org_grantable(
            roles,
            members::member_roles(record.held@, org_id),
            members::member_grants(record.grants@, org_id),
        ),
{
}

/// The tab that was asked for opens, and the first one where there is no such
/// tab.
pub proof fn law_org_tab(tab: Seq<char>)
    ensures
        opened_tab(Some("members"@)) == "members"@,
        opened_tab(Some("invitations"@)) == "invitations"@,
        opened_tab(Some("danger"@)) == "danger"@,
        opened_tab(Some("overview"@)) == "overview"@,
        opened_tab(None) == "overview"@,
        tab != "members"@ && tab != "invitations"@ && tab != "danger"@ ==> opened_tab(Some(tab))
            == "overview"@,
{
    reveal_strlit("members");
    reveal_strlit("invitations");
    reveal_strlit("danger");
    assert("members"@.len() == 7 && "invitations"@.len() == 11 && "danger"@.len() == 6);
}

/// The message of the cookie comes before that of the query; where there is
/// neither, none is shown.
pub proof fn law_page_flash(
    shown: Option<web::Flash>,
    cookie: Option<web::Flash>,
    message: Option<String>,
    kind: Option<String>,
)
    requires
        page_flash(shown, cookie, message, kind),
    ensures
        cookie is Some ==> shown == cookie,
        cookie is None ==> (message matches Some(m) ==> (shown matches Some(f) && f.message@ == m@
            && (f.kind is Error <==> (kind matches Some(k) && k@ == "error"@)))),
        cookie is None && message is None ==> shown is None,
{
}

/// Exactly the pieces that name an organization are taken, trimmed, in their
/// order; any other piece is passed over.
pub proof fn law_named_orgs(pieces: Seq<Seq<char>>)
    ensures
        named_orgs(pieces) == pieces.map_values(|p: Seq<char>| text::trimmed(p)).filter(
            |p: Seq<char>| p.len() > 0 && codec::uuid_of(p) is Some,
        ).map_values(|p: Seq<char>| codec::uuid_of(p)->0),
    decreases pieces.len(),
{
    let cut = |p: Seq<char>| text::trimmed(p);
    let keep = |p: Seq<char>| p.len() > 0 && codec::uuid_of(p) is Some;
    let id = |p: Seq<char>| codec::uuid_of(p)->0;
    reveal(Seq::filter);
    if pieces.len() > 0 {
        let rest = pieces.drop_last();
        law_named_orgs(rest);
        let all = pieces.map_values(cut);
        assert(all.drop_last() =~= rest.map_values(cut));
        assert(all.last() == cut(pieces.last()));
        let before = rest.map_values(cut).filter(keep);
        if keep(all.last()) {
            assert(before.push(all.last()).map_values(id) =~= before.map_values(id).push(
                id(all.last()),
            ));
        }
    } else {
        assert(pieces.map_values(cut) =~= Seq::<Seq<char>>::empty());
        assert(pieces.map_values(cut).filter(keep).map_values(id) =~= Seq::<u128>::empty());
    }
}

/// Exactly the deletions that succeeded are recorded, in their order, each of its
/// own organization.
pub proof fn law_bulk_events(session: web::UiSession, realm_id: u128, deletions: Seq<OrgDeletion>)
    ensures
        bulk_events(session, realm_id, deletions) == deletions.filter(
            |d: OrgDeletion| d.result is Ok,
        ).map_values(
            |d: OrgDeletion| org_event(session, realm_id, web::AuditAction::OrgDeleted, d.org_id),
        ),
    decreases deletions.len(),
{
    let keep = |d: OrgDeletion| d.result is Ok;
    let row = |d: OrgDeletion| org_event(session, realm_id, web::AuditAction::OrgDeleted, d.org_id);
    reveal(Seq::filter);
    if deletions.len() > 0 {
        law_bulk_events(session, realm_id, deletions.drop_last());
        let before = deletions.drop_last().filter(keep);
        if keep(deletions.last()) {
            assert(before.push(deletions.last()).map_values(row) =~= before.map_values(row).push(
                row(deletions.last()),
            ));
        }
    } else {
        assert(deletions.filter(keep).map_values(row) =~= Seq::<web::AuditEventView>::empty());
    }
}

/// What is read of organizations is limited.
pub proof fn law_org_limits()
    ensures
        SHOWN_MEMBERS == 100,
        SHOWN_INVITATIONS == 100,
{
}

} // verus!
