//! User management: lists, creation, the user page, editing, deletion.

use crate::access;
use crate::audit;
use crate::calendar;
use crate::codec;
use crate::json;
use crate::members;
use crate::order;
use crate::query;
use crate::sessions;
use crate::text;
use crate::web;
use vstd::prelude::*;
use vstd::string::*;

verus! {

// ---------------------------------------------------------------------------
// The model
// ---------------------------------------------------------------------------

/// Whether a user can sign in.
#[derive(Clone, Copy, PartialEq, Eq, Structural)]
pub enum UserStatus {
    Active,
    Disabled,
    PendingVerification,
}

impl UserStatus {
    /// The name of a status.
    pub open spec fn name(self) -> Seq<char> {
        match self {
            UserStatus::Active => "Active"@,
            UserStatus::Disabled => "Disabled"@,
            UserStatus::PendingVerification => "PendingVerification"@,
        }
    }

    /// The name of a status.
    pub fn label(self) -> (r: String)
        ensures
            r@ == self.name(),
    {
        match self {
            UserStatus::Active => "Active".to_owned(),
            UserStatus::Disabled => "Disabled".to_owned(),
            UserStatus::PendingVerification => "PendingVerification".to_owned(),
        }
    }
}

/// The status that a form field names; what it does not name is active.
pub open spec fn status_of(s: Seq<char>) -> UserStatus {
    if s == "Disabled"@ {
        UserStatus::Disabled
    } else if s == "PendingVerification"@ {
        UserStatus::PendingVerification
    } else {
        UserStatus::Active
    }
}

/// Parses a status from a form field. Falls back to `Active`.
pub fn parse_user_status(s: &str) -> (r: Option<UserStatus>)
    ensures
        r == Some(status_of(s@)),
{
    if text::same(s, "Disabled") {
        Some(UserStatus::Disabled)
    } else if text::same(s, "PendingVerification") {
        Some(UserStatus::PendingVerification)
    } else {
        Some(UserStatus::Active)
    }
}

/// A status is read back from its name.
pub proof fn law_status_round_trip(status: UserStatus)
    ensures
        status_of(status.name()) == status,
{
    reveal_strlit("Active");
    reveal_strlit("Disabled");
    reveal_strlit("PendingVerification");
    assert("Active"@[0] == 'A' && "Disabled"@[0] == 'D' && "PendingVerification"@[0] == 'P');
}

/// A user as the engine knows it.
pub struct User {
    pub id: u128,
    pub email: String,
    pub display_name: String,
    pub first_name: String,
    pub last_name: String,
    pub status: UserStatus,
    pub created_at: i64,
    pub updated_at: i64,
    pub attributes: Vec<(String, String)>,
}

// ---------------------------------------------------------------------------
// Lists
// ---------------------------------------------------------------------------

/// Query parameters of a paged list.
pub struct PaginationParams {
    /// Where the page starts.
    pub cursor: Option<String>,
}

/// Query parameters of the user lists.
pub struct UserListParams {
    /// Where the page starts.
    pub cursor: Option<String>,
    /// What to search for.
    pub q: Option<String>,
}

/// The number of items on a page of a list.
pub const PAGE_SIZE: usize = 20;

/// The number of items in which a list searches that has no index of names.
pub const SEARCH_WINDOW: usize = 200;

/// The number of sessions on the user page.
pub const USER_SESSIONS: usize = 10;

/// The number of organizations on the user page.
pub const USER_ORGS: usize = 50;

/// What a list is asked for; `limit` is how many items the engine gives at most.
pub enum ListQuery {
    /// What matches a text.
    Search { text: String, limit: usize },
    /// A page.
    Browse { cursor: Option<String>, limit: usize },
}

/// Whether `r` is what `q` and `cursor` ask for: a search among `window` items,
/// where the text has two bytes or more, else a page.
pub open spec fn asks_list(r: ListQuery, q: Seq<char>, cursor: Option<String>, window: usize) -> bool {
    match r {
        ListQuery::Search { text, limit } => text::byte_len(q) >= 2 && text@ == q && limit
            == window,
        ListQuery::Browse { cursor: c, limit } => text::byte_len(q) < 2 && text::opt_text(c)
            == text::opt_text(cursor) && limit == PAGE_SIZE,
    }
}

/// The text that is searched for.
pub open spec fn search_text(q: Option<String>) -> Seq<char> {
    sessions::text_or(q, Seq::empty())
}

/// Decides between a search among `window` items and a page.
pub fn list_query(q: &str, cursor: &Option<String>, window: usize) -> (r: ListQuery)
    ensures
        asks_list(r, q@, *cursor, window),
{
    if text::two_bytes_or_more(q) {
        ListQuery::Search { text: q.to_owned(), limit: window }
    } else {
        ListQuery::Browse { cursor: text::clone_opt(cursor), limit: PAGE_SIZE }
    }
}

/// A search for users; `limit` is how many the engine gives at most.
pub struct UserSearch {
    pub text: String,
    pub limit: usize,
}

/// Whether `r` is a search for `text`, where there is one, for `limit` users at
/// most.
pub open spec fn searches(r: Option<UserSearch>, text: Option<Seq<char>>, limit: usize) -> bool {
    match r {
        Some(s) => text == Some(s.text@) && s.limit == limit,
        None => text is None,
    }
}

/// Decides what the user lists ask the engine for: a page of users, whether or
/// not they are searched for.
pub fn admin_users_list_query(params: &UserListParams) -> (r: ListQuery)
    ensures
        asks_list(r, search_text(params.q), params.cursor, PAGE_SIZE),
{
    let q = access::or_empty(&params.q);
    list_query(q.as_str(), &params.cursor, PAGE_SIZE)
}

/// The list of the users of a realm.
pub struct UserListTemplate {
    pub users: Vec<User>,
    pub next_cursor: Option<String>,
    pub search_query: String,
    /// The realm, where the list is that of a tenant.
    pub target_realm_name: Option<String>,
    pub target_realm_id_hex: Option<String>,
    /// The query that links to users repeat.
    pub target_query: String,
    pub active_tab: String,
    pub chrome: web::Chrome,
}

/// Shows the users of a realm.
pub fn admin_users_list(
    site: &web::Site,
    session: &web::UiSession,
    target: &web::TargetRealm,
    params: &UserListParams,
    found: Result<sessions::Page<User>, web::EngineError>,
) -> (r: web::Reply<UserListTemplate>)
    ensures
        found is Err ==> r is ServerError,
        found matches Ok(page) ==> r is Page && {
            let p = r->Page_0;
            &&& p.users == page.items
            &&& p.next_cursor == page.next_cursor
            &&& p.search_query@ == search_text(params.q)
            &&& text::opt_text(p.target_realm_name) == Some(target.name@)
            &&& text::opt_text(p.target_realm_id_hex) == Some(codec::hyphenated(target.id))
            &&& p.target_query@ == "?realm="@ + target.name@
            &&& p.active_tab@ == "users"@
            &&& p.chrome.is_admin_page(*site, *session, "realm-workspace"@)
            &&& p.chrome.flash is None
        },
{
    match found {
        Err(_) => web::Reply::ServerError,
        Ok(page) => web::Reply::Page(
            UserListTemplate {
                users: page.items,
                next_cursor: page.next_cursor,
                search_query: access::or_empty(&params.q),
                target_realm_name: Some(target.name.clone()),
                target_realm_id_hex: Some(codec::uuid_text(target.id)),
                target_query: "?realm=".to_owned().concat(target.name.as_str()),
                active_tab: "users".to_owned(),
                chrome: web::Chrome::admin(site, session, "realm-workspace"),
            },
        ),
    }
}

/// Shows the users of the system realm.
pub fn admin_admin_users_list(
    site: &web::Site,
    session: &web::UiSession,
    params: &UserListParams,
    found: Result<sessions::Page<User>, web::EngineError>,
) -> (r: web::Reply<UserListTemplate>)
    ensures
        found is Err ==> r is ServerError,
        found matches Ok(page) ==> r is Page && {
            let p = r->Page_0;
            &&& p.users == page.items
            &&& p.next_cursor == page.next_cursor
            &&& p.search_query@ == search_text(params.q)
            &&& p.target_realm_name is None
            &&& p.target_realm_id_hex is None
            &&& p.target_query@ == "?admin_target=system"@
            &&& p.active_tab@ == ""@
            &&& p.chrome.is_admin_page(*site, *session, "admin-users"@)
            &&& p.chrome.flash is None
        },
{
    match found {
        Err(_) => web::Reply::ServerError,
        Ok(page) => web::Reply::Page(
            UserListTemplate {
                users: page.items,
                next_cursor: page.next_cursor,
                search_query: access::or_empty(&params.q),
                target_realm_name: None,
                target_realm_id_hex: None,
                target_query: "?admin_target=system".to_owned(),
                active_tab: "".to_owned(),
                chrome: web::Chrome::admin(site, session, "admin-users"),
            },
        ),
    }
}

// ---------------------------------------------------------------------------
// Creation
// ---------------------------------------------------------------------------

/// The form that creates a user.
pub struct CreateUserForm {
    pub email: String,
    pub display_name: String,
    pub first_name: String,
    pub last_name: String,
    pub password: String,
    pub csrf: String,
}

/// The page that creates a user.
pub struct UserNewTemplate {
    pub error: Option<String>,
    pub form_email: String,
    pub form_display_name: String,
    pub form_first_name: String,
    pub form_last_name: String,
    /// The query that names the realm.
    pub target_query: String,
    pub chrome: web::Chrome,
}

/// Shows the empty form.
pub fn admin_user_create_form(
    site: &web::Site,
    session: &web::UiSession,
    raw_query: &Option<String>,
) -> (r: web::Reply<UserNewTemplate>)
    ensures
        r is Page && {
            let p = r->Page_0;
            &&& p.error is None
            &&& p.form_email@.len() == 0
            &&& p.form_display_name@.len() == 0
            &&& p.form_first_name@.len() == 0
            &&& p.form_last_name@.len() == 0
            &&& p.target_query@ == match raw_query {
                Some(q) => query::realm_token(query::params_of(q@)),
                None => Seq::empty(),
            }
            &&& p.chrome.is_admin_page(*site, *session, "users"@)
            &&& p.chrome.flash is None
        },
{
    web::Reply::Page(
        UserNewTemplate {
            error: None,
            form_email: String::new(),
            form_display_name: String::new(),
            form_first_name: String::new(),
            form_last_name: String::new(),
            target_query: query::realm_query_string(raw_query),
            chrome: web::Chrome::admin(site, session, "users"),
        },
    )
}

/// What the engine is asked to create.
pub struct CreateUserRequest {
    pub email: String,
    pub display_name: String,
    pub first_name: String,
    pub last_name: String,
}

/// Reads what to create: refused without the CSRF token.
pub fn admin_user_create_submit_request(csrf_ok: bool, form: &CreateUserForm) -> (r: Result<
    CreateUserRequest,
    web::Reply<UserNewTemplate>,
>)
    ensures
        !csrf_ok ==> r is Err && r->Err_0 is Forbidden,
        csrf_ok ==> r is Ok && {
            let q = r->Ok_0;
            &&& q.email@ == form.email@
            &&& q.display_name@ == form.display_name@
            &&& q.first_name@ == form.first_name@
            &&& q.last_name@ == form.last_name@
        },
{
    if !csrf_ok {
        return Err(web::Reply::Forbidden);
    }
    Ok(
        CreateUserRequest {
            email: form.email.clone(),
            display_name: form.display_name.clone(),
            first_name: form.first_name.clone(),
            last_name: form.last_name.clone(),
        },
    )
}

/// What is done to a user right after creation.
pub struct NewUserSetup {
    pub user_id: u128,
    /// The initial password.
    pub password: String,
    /// The status from then on; the email address needs no verification.
    pub status: UserStatus,
}

/// Tells what to do to a user that was just created.
pub fn admin_user_create_submit_setup(form: &CreateUserForm, user_id: u128) -> (r: NewUserSetup)
    ensures
        r.user_id == user_id,
        r.password@ == form.password@,
        r.status == UserStatus::Active,
{
    NewUserSetup { user_id, password: form.password.clone(), status: UserStatus::Active }
}

/// What the form says after a failure.
pub open spec fn create_user_error(e: web::EngineError) -> Seq<char> {
    match e.kind {
        web::ErrorKind::DuplicateEmail => "A user with that email already exists."@,
        web::ErrorKind::InvalidInput(reason) => reason@,
        _ => "Unable to create user right now."@,
    }
}

fn create_user_message(e: &web::EngineError) -> (r: String)
    ensures
        r@ == create_user_error(*e),
{
    match &e.kind {
        web::ErrorKind::DuplicateEmail => "A user with that email already exists.".to_owned(),
        web::ErrorKind::InvalidInput(reason) => reason.clone(),
        _ => "Unable to create user right now.".to_owned(),
    }
}

/// Answers after the engine tried to create a user: to the page of the new
/// user, or back to the form as it was filled in.
pub fn admin_user_create_submit(
    site: &web::Site,
    session: &web::UiSession,
    target: &web::TargetRealm,
    form: &CreateUserForm,
    created: Result<u128, web::EngineError>,
) -> (r: web::Outcome<UserNewTemplate>)
    ensures
        match created {
            Ok(id) => {
                &&& r.reply.redirects(
                    "/ui/admin/users/"@ + codec::hyphenated(id) + sessions::realm_query(
                        target.id == 0,
                        target.name@,
                    ),
                )
                &&& r.log() == seq![
                    web::ui_event(
                        *session,
                        target.id,
                        web::AuditAction::UserCreated,
                        "user"@,
                        codec::hyphenated(id),
                        web::via_ui(),
                    ),
                ]
            },
            Err(e) => r.is_silent() && r.reply is Page && {
                let p = r.reply->Page_0;
                &&& text::opt_text(p.error) == Some(create_user_error(e))
                &&& p.form_email@ == form.email@
                &&& p.form_display_name@ == form.display_name@
                &&& p.form_first_name@ == form.first_name@
                &&& p.form_last_name@ == form.last_name@
                &&& p.target_query@ == sessions::realm_query(target.id == 0, target.name@)
                &&& p.chrome.is_admin_page(*site, *session, "users"@)
                &&& p.chrome.flash is None
            },
        },
{
    let target_query = sessions::realm_query_text(target.id == 0, target.name.as_str());
    match created {
        Ok(id) => {
            let event = audit::audit_user_event(session, target.id, id, "create");
            let url = "/ui/admin/users/".to_owned().concat(codec::uuid_text(id).as_str()).concat(
                target_query.as_str(),
            );
            web::Outcome::noted(web::Reply::redirect(url.as_str()), event)
        },
        Err(e) => web::Outcome::silent(
            web::Reply::Page(
                UserNewTemplate {
                    error: Some(create_user_message(&e)),
                    form_email: form.email.clone(),
                    form_display_name: form.display_name.clone(),
                    form_first_name: form.first_name.clone(),
                    form_last_name: form.last_name.clone(),
                    target_query,
                    chrome: web::Chrome::admin(site, session, "users"),
                },
            ),
        ),
    }
}

// ---------------------------------------------------------------------------
// The user page
// ---------------------------------------------------------------------------

/// A session on the user page.
pub struct UserSessionRow {
    /// Session UUID.
    pub id: String,
    /// When the session began.
    pub created_at: String,
    /// When it ends.
    pub expires_at: String,
    /// Whether it was revoked.
    pub revoked: bool,
    /// Whether it has ended by now.
    pub expired: bool,
    /// The device, as far as it is known.
    pub device_label: String,
    /// The client's address, or a dash.
    pub ip_address: String,
}

/// A session row without its representation.
#[verifier::ext_equal]
pub struct UserSession {
    pub id: Seq<char>,
    pub created_at: Seq<char>,
    pub expires_at: Seq<char>,
    pub revoked: bool,
    pub expired: bool,
    pub device_label: Seq<char>,
    pub ip_address: Seq<char>,
}

impl View for UserSessionRow {
    type V = UserSession;

    open spec fn view(&self) -> UserSession {
        UserSession {
            id: self.id@,
            created_at: self.created_at@,
            expires_at: self.expires_at@,
            revoked: self.revoked,
            expired: self.expired,
            device_label: self.device_label@,
            ip_address: self.ip_address@,
        }
    }
}

/// The row of a session at the time `now`.
pub open spec fn user_session(s: sessions::SessionInfo, now: i64) -> UserSession {
    UserSession {
        id: codec::hyphenated(s.id),
        created_at: calendar::instant_text(s.created_at as int),
        expires_at: calendar::instant_text(s.expires_at as int),
        revoked: s.revoked,
        expired: s.expires_at <= now,
        device_label: sessions::text_or(s.device_label, "Unknown device"@),
        ip_address: sessions::text_or(s.ip_address, "\u{2014}"@),
    }
}

/// The rows of sessions, all as of the same time.
pub open spec fn user_sessions(items: Seq<sessions::SessionInfo>, now: i64) -> Seq<UserSession> {
    Seq::new(items.len(), |i: int| user_session(items[i], now))
}

fn session_rows(items: &Vec<sessions::SessionInfo>, now: i64) -> (r: Vec<UserSessionRow>)
    ensures
        text::views(r@) == user_sessions(items@, now),
{
    let mut out: Vec<UserSessionRow> = Vec::new();
    let mut i: usize = 0;
    while i < items.len()
        invariant
            i <= items.len(),
            out.len() == i,
            forall|j: int| 0 <= j < i ==> (#[trigger] out@[j])@ == user_session(items@[j], now),
        decreases items.len() - i,
    {
        let s = &items[i];
        out.push(
            UserSessionRow {
                id: codec::uuid_text(s.id),
                created_at: calendar::format_ts(s.created_at),
                expires_at: calendar::format_ts(s.expires_at),
                revoked: s.revoked,
                expired: s.expires_at <= now,
                device_label: sessions::or_default(&s.device_label, "Unknown device"),
                ip_address: sessions::or_default(&s.ip_address, "\u{2014}"),
            },
        );
        i += 1;
    }
    proof {
        assert(text::views(out@) =~= user_sessions(items@, now));
    }
    out
}

/// A WebAuthn credential as the engine knows it.
pub struct Credential {
    /// The credential identifier in base64url.
    pub id_b64url: String,
    /// COSE algorithm identifier.
    pub algorithm: i64,
    /// Whether the credential is discoverable.
    pub discoverable: bool,
}

/// A WebAuthn credential on the user page.
pub struct WebAuthnCredRow {
    /// The credential identifier in base64url.
    pub id_b64url: String,
    /// The identifier, cut short for display.
    pub id_short: String,
    /// COSE algorithm identifier.
    pub algorithm: i64,
    /// Whether the credential is discoverable.
    pub discoverable: bool,
}

/// A credential row without its representation.
#[verifier::ext_equal]
pub struct CredRow {
    pub id_b64url: Seq<char>,
    pub id_short: Seq<char>,
    pub algorithm: i64,
    pub discoverable: bool,
}

impl View for WebAuthnCredRow {
    type V = CredRow;

    open spec fn view(&self) -> CredRow {
        CredRow {
            id_b64url: self.id_b64url@,
            id_short: self.id_short@,
            algorithm: self.algorithm,
            discoverable: self.discoverable,
        }
    }
}

/// A credential identifier for display: its first sixteen bytes and an
/// ellipsis, where it is longer.
pub open spec fn short_id(id: Seq<char>) -> Seq<char> {
    if text::byte_len(id) > 16 {
        text::first_bytes(id, 16) + "..."@
    } else {
        id
    }
}

/// Cuts a credential identifier short for display.
pub fn shorten_id(id: &str) -> (r: String)
    ensures
        r@ == short_id(id@),
{
    if text::longer_than(id, 16) {
        text::cut_bytes(id, 16).concat("...")
    } else {
        id.to_owned()
    }
}

/// The row of a credential.
pub open spec fn cred_row(c: Credential) -> CredRow {
    CredRow {
        id_b64url: c.id_b64url@,
        id_short: short_id(c.id_b64url@),
        algorithm: c.algorithm,
        discoverable: c.discoverable,
    }
}

/// The rows of credentials.
pub open spec fn cred_rows(items: Seq<Credential>) -> Seq<CredRow> {
    Seq::new(items.len(), |i: int| cred_row(items[i]))
}

fn credential_rows(items: &Vec<Credential>) -> (r: Vec<WebAuthnCredRow>)
    ensures
        text::views(r@) == cred_rows(items@),
{
    let mut out: Vec<WebAuthnCredRow> = Vec::new();
    let mut i: usize = 0;
    while i < items.len()
        invariant
            i <= items.len(),
            out.len() == i,
            forall|j: int| 0 <= j < i ==> (#[trigger] out@[j])@ == cred_row(items@[j]),
        decreases items.len() - i,
    {
        let c = &items[i];
        out.push(
            WebAuthnCredRow {
                id_b64url: c.id_b64url.clone(),
                id_short: shorten_id(c.id_b64url.as_str()),
                algorithm: c.algorithm,
                discoverable: c.discoverable,
            },
        );
        i += 1;
    }
    proof {
        assert(text::views(out@) =~= cred_rows(items@));
    }
    out
}

/// How an organization is called.
pub struct OrgNames {
    pub name: String,
    pub slug: String,
}

/// A membership of a user, with what the engine knows of the organization.
pub struct UserMembership {
    pub org_id: u128,
    pub role: members::OrganizationRole,
    pub org: Option<OrgNames>,
}

/// An organization on the user page.
pub struct OrgMembershipRow {
    /// Organization UUID.
    pub org_id: String,
    /// Organization name.
    pub org_name: String,
    /// Organization slug.
    pub org_slug: String,
    /// The role there.
    pub role: String,
}

/// An organization row without its representation.
#[verifier::ext_equal]
pub struct OrgRow {
    pub org_id: Seq<char>,
    pub org_name: Seq<char>,
    pub org_slug: Seq<char>,
    pub role: Seq<char>,
}

impl View for OrgMembershipRow {
    type V = OrgRow;

    open spec fn view(&self) -> OrgRow {
        OrgRow {
            org_id: self.org_id@,
            org_name: self.org_name@,
            org_slug: self.org_slug@,
            role: self.role@,
        }
    }
}

/// The row of a membership.
pub open spec fn org_row(m: UserMembership) -> OrgRow {
    OrgRow {
        org_id: codec::hyphenated(m.org_id),
        org_name: match m.org {
            Some(o) => o.name@,
            None => "(unknown)"@,
        },
        org_slug: match m.org {
            Some(o) => o.slug@,
            None => Seq::empty(),
        },
        role: m.role.name(),
    }
}

/// The rows of memberships.
pub open spec fn org_rows(items: Seq<UserMembership>) -> Seq<OrgRow> {
    Seq::new(items.len(), |i: int| org_row(items[i]))
}

fn membership_rows(items: &Vec<UserMembership>) -> (r: Vec<OrgMembershipRow>)
    ensures
        text::views(r@) == org_rows(items@),
{
    let mut out: Vec<OrgMembershipRow> = Vec::new();
    let mut i: usize = 0;
    while i < items.len()
        invariant
            i <= items.len(),
            out.len() == i,
            forall|j: int| 0 <= j < i ==> (#[trigger] out@[j])@ == org_row(items@[j]),
        decreases items.len() - i,
    {
        let m = &items[i];
        let (org_name, org_slug) = match &m.org {
            Some(o) => (o.name.clone(), o.slug.clone()),
            None => ("(unknown)".to_owned(), String::new()),
        };
        out.push(
            OrgMembershipRow {
                org_id: codec::uuid_text(m.org_id),
                org_name,
                org_slug,
                role: m.role.label(),
            },
        );
        i += 1;
    }
    proof {
        assert(text::views(out@) =~= org_rows(items@));
    }
    out
}

/// Query parameters of the user page.
pub struct UserDetailParams {
    /// The message that a redirect asks for.
    pub flash: Option<String>,
}

/// The message that a key stands for; what is no key is the message itself.
pub open spec fn flash_text(key: Seq<char>) -> Seq<char> {
    if key == "reset_sent"@ {
        "Password reset email requested."@
    } else if key == "mfa_disabled"@ {
        "MFA has been disabled for this user."@
    } else if key == "session_revoked"@ {
        "Session revoked."@
    } else if key == "webauthn_revoked"@ {
        "WebAuthn credential revoked."@
    } else if key == "role_assigned"@ {
        "Role assigned."@
    } else if key == "role_unassigned"@ {
        "Role removed."@
    } else if key == "permission_granted"@ {
        "Permission granted."@
    } else if key == "permission_revoked"@ {
        "Permission revoked."@
    } else {
        key
    }
}

/// Reads the message that a redirect asks for.
pub fn flash_message(flash: &Option<String>) -> (r: Option<String>)
    ensures
        text::opt_text(r) == match flash {
            Some(key) => Some(flash_text(key@)),
            None => None,
        },
{
    match flash {
        None => None,
        Some(key) => {
            let k = key.as_str();
            Some(
                if text::same(k, "reset_sent") {
                    "Password reset email requested.".to_owned()
                } else if text::same(k, "mfa_disabled") {
                    "MFA has been disabled for this user.".to_owned()
                } else if text::same(k, "session_revoked") {
                    "Session revoked.".to_owned()
                } else if text::same(k, "webauthn_revoked") {
                    "WebAuthn credential revoked.".to_owned()
                } else if text::same(k, "role_assigned") {
                    "Role assigned.".to_owned()
                } else if text::same(k, "role_unassigned") {
                    "Role removed.".to_owned()
                } else if text::same(k, "permission_granted") {
                    "Permission granted.".to_owned()
                } else if text::same(k, "permission_revoked") {
                    "Permission revoked.".to_owned()
                } else {
                    key.clone()
                },
            )
        },
    }
}

/// Checks whether the permissions of a user make an administrator.
pub fn check_user_admin(permissions: &Vec<String>) -> (r: bool)
    ensures
        r == text::texts(permissions@).contains("hearth.admin"@),
{
    order::contains_text(permissions, "hearth.admin")
}

/// The permissions that each role grants, by the UUID of the role.
pub open spec fn role_entries(roles: Seq<access::RoleChoice>) -> Seq<(Seq<char>, Seq<Seq<char>>)> {
    Seq::new(roles.len(), |i: int| (roles[i].id, roles[i].permissions))
}

/// Writes the JSON object from role UUIDs to permissions by which the browser
/// looks up what a role grants.
pub fn role_permissions_json(roles: &Vec<access::AvailableRole>) -> (r: String)
    ensures
        r@ == json::or_empty_object(json::lists_json(role_entries(text::views(roles@)))),
{
    let mut entries: Vec<(String, Vec<String>)> = Vec::new();
    let mut i: usize = 0;
    while i < roles.len()
        invariant
            i <= roles.len(),
            entries.len() == i,
            forall|j: int|
                0 <= j < i ==> (#[trigger] entries@[j]).0@ == roles@[j].id@ && text::texts(
                    entries@[j].1@,
                ) == text::texts(roles@[j].permissions@),
        decreases roles.len() - i,
    {
        entries.push((roles[i].id.clone(), text::clone_all(&roles[i].permissions)));
        i += 1;
    }
    proof {
        assert(json::entries_of(entries@) =~= role_entries(text::views(roles@)));
    }
    json::object_or_empty(json::write_lists(&entries))
}

/// Pairs by their first component.
pub open spec fn key_order() -> spec_fn((Seq<char>, Seq<char>), (Seq<char>, Seq<char>)) -> bool {
    |a: (Seq<char>, Seq<char>), b: (Seq<char>, Seq<char>)| text::text_le(a.0, b.0)
}

/// Pairs of strings without their representation.
pub open spec fn pairs_of(v: Seq<(String, String)>) -> Seq<(Seq<char>, Seq<char>)> {
    v.map_values(|p: (String, String)| (p.0@, p.1@))
}

/// Pairs of strings by their first component.
pub struct ByKey;

impl order::Order<(String, String)> for ByKey {
    open spec fn may_precede(a: (String, String), b: (String, String)) -> bool {
        text::text_le(a.0@, b.0@)
    }

    fn precedes(a: &(String, String), b: &(String, String)) -> (r: bool) {
        text::le(a.0.as_str(), b.0.as_str())
    }
}

/// Lists the attributes of a user by key.
pub fn sorted_attributes(attributes: &Vec<(String, String)>) -> (r: Vec<(String, String)>)
    ensures
        pairs_of(r@) == order::sorted(pairs_of(attributes@), key_order()),
{
    let mut copy: Vec<(String, String)> = Vec::new();
    let mut i: usize = 0;
    while i < attributes.len()
        invariant
            i <= attributes.len(),
            copy.len() == i,
            forall|j: int|
                0 <= j < i ==> (#[trigger] copy@[j]).0@ == attributes@[j].0@ && copy@[j].1@
                    == attributes@[j].1@,
        decreases attributes.len() - i,
    {
        copy.push((attributes[i].0.clone(), attributes[i].1.clone()));
        i += 1;
    }
    let ghost built = copy@;
    let r = order::sort::<(String, String), ByKey>(copy);
    proof {
        order::lemma_sorted_map(
            built,
            order::order_of::<(String, String), ByKey>(),
            |p: (String, String)| (p.0@, p.1@),
            key_order(),
        );
        assert(pairs_of(built) =~= pairs_of(attributes@));
    }
    r
}

/// What the engines tell of a user; empty where they could not tell.
pub struct UserRecords {
    /// The ten latest sessions.
    pub sessions: Vec<sessions::SessionInfo>,
    pub mfa_enabled: bool,
    pub credentials: Vec<Credential>,
    pub memberships: Vec<UserMembership>,
    /// The roles held.
    pub held: Vec<access::HeldRole>,
    /// The permissions granted directly.
    pub grants: Vec<access::Grant>,
    /// The permissions held in the end.
    pub effective: Vec<String>,
    /// The roles of the realm that can be assigned.
    pub roles: Vec<access::Role>,
    /// The roles of the realm whose permissions can be granted.
    pub permission_roles: Vec<access::Role>,
    /// The organizations of the realm.
    pub orgs: Vec<access::OrgSummary>,
}

/// The user page.
pub struct UserDetailTemplate {
    pub user: User,
    pub user_id: String,
    pub sessions: Vec<UserSessionRow>,
    pub mfa_enabled: bool,
    pub webauthn_credentials: Vec<WebAuthnCredRow>,
    pub org_memberships: Vec<OrgMembershipRow>,
    pub flash_message: Option<String>,
    pub is_user_admin: bool,
    pub role_assignments: Vec<access::UserRoleAssignmentRow>,
    pub available_roles: Vec<access::AvailableRole>,
    pub available_orgs: Vec<access::AvailableOrg>,
    pub created_at_display: String,
    pub updated_at_display: String,
    pub extra_permissions: Vec<access::UserPermissionGrantRow>,
    pub role_inherited_groups: Vec<access::RoleInheritedGroup>,
    pub available_permissions: Vec<String>,
    pub effective_permissions: Vec<String>,
    pub role_perms_json: String,
    pub attributes: Vec<(String, String)>,
    pub chrome: web::Chrome,
}

impl UserDetailTemplate {
    /// Whether the page shows the roles that `records` tells of.
    pub open spec fn shows_roles(self, records: UserRecords) -> bool {
        &&& text::views(self.role_assignments@) == access::assignment_rows(records.held@)
        &&& text::views(self.role_inherited_groups@) == access::inherited_groups(
            access::assignment_rows(records.held@),
        )
        &&& text::views(self.available_roles@) == access::role_choices(records.roles@)
        &&& text::views(self.available_orgs@) == access::org_choices(records.orgs@)
        &&& self.role_perms_json@ == json::or_empty_object(
            json::lists_json(role_entries(access::role_choices(records.roles@))),
        )
    }

    /// Whether the page shows the permissions that `records` tells of.
    pub open spec fn shows_permissions(self, records: UserRecords) -> bool {
        &&& self.is_user_admin == text::texts(records.effective@).contains("hearth.admin"@)
        &&& text::views(self.extra_permissions@) == access::grant_rows(records.grants@)
        &&& self.effective_permissions == records.effective
        &&& text::texts(self.available_permissions@) == access::grantable(
            order::sorted_set(access::all_permissions(records.permission_roles@)),
            records.held@,
            text::texts(records.effective@),
            access::grant_rows(records.grants@),
        )
    }

    /// Whether the page shows a user, the time being `now`.
    pub open spec fn shows_user(self, user: User, records: UserRecords, now: i64) -> bool {
        &&& self.user == user
        &&& text::views(self.sessions@) == user_sessions(records.sessions@, now)
        &&& self.mfa_enabled == records.mfa_enabled
        &&& text::views(self.webauthn_credentials@) == cred_rows(records.credentials@)
        &&& text::views(self.org_memberships@) == org_rows(records.memberships@)
        &&& self.created_at_display@ == calendar::instant_text(user.created_at as int)
        &&& self.updated_at_display@ == calendar::instant_text(user.updated_at as int)
        &&& pairs_of(self.attributes@) == order::sorted(pairs_of(user.attributes@), key_order())
    }
}

/// Reads which user a page is about.
pub fn user_request(user_id: &str) -> (r: Result<u128, web::Reply<()>>)
    ensures
        web::names_one(r, true, user_id@, "User not found"@),
{
    web::require_one(true, user_id, "User not found")
}

/// Reads which user the user page is about.
pub fn admin_user_detail_request(user_id: &str) -> (r: Result<u128, web::Reply<UserDetailTemplate>>)
    ensures
        match codec::uuid_of(user_id@) {
            Some(id) => r == Ok::<u128, web::Reply<UserDetailTemplate>>(id),
            None => r is Err && r->Err_0.not_found_authed("User not found"@),
        },
{
    match codec::parse_uuid(user_id) {
        Some(id) => Ok(id),
        None => Err(web::Reply::NotFoundAuthed("User not found".to_owned())),
    }
}

/// Shows a user, given what the engines tell and the time.
pub fn admin_user_detail(
    site: &web::Site,
    session: &web::UiSession,
    uid: u128,
    params: &UserDetailParams,
    found: Result<Option<User>, web::EngineError>,
    records: UserRecords,
    now: i64,
) -> (r: web::Reply<UserDetailTemplate>)
    ensures
        match found {
            Err(_) => r is ServerError,
            Ok(None) => r.not_found_authed("User not found"@),
            Ok(Some(user)) => r is Page && {
                let p = r->Page_0;
                &&& p.user_id@ == codec::hyphenated(uid)
                &&& p.shows_user(user, records, now)
                &&& p.shows_roles(records)
                &&& p.shows_permissions(records)
                &&& text::opt_text(p.flash_message) == match params.flash {
                    Some(key) => Some(flash_text(key@)),
                    None => None,
                }
                &&& p.chrome.is_admin_page(*site, *session, "users"@)
                &&& p.chrome.flash is None
            },
        },
{
    let user = match found {
        Err(_) => return web::Reply::ServerError,
        Ok(None) => return web::Reply::NotFoundAuthed("User not found".to_owned()),
        Ok(Some(user)) => user,
    };
    let role_assignments = access::build_role_assignment_rows(&records.held);
    let role_inherited_groups = access::build_role_inherited_groups(&role_assignments);
    let available_roles = access::build_realm_available_roles(&records.roles);
    let role_perms_json = role_permissions_json(&available_roles);
    let extra_permissions = access::build_permission_grant_rows(&records.grants);
    let available_permissions = access::grantable_permissions(
        &records.permission_roles,
        &records.held,
        &records.effective,
        &extra_permissions,
    );
    web::Reply::Page(
        UserDetailTemplate {
            user_id: codec::uuid_text(uid),
            sessions: session_rows(&records.sessions, now),
            mfa_enabled: records.mfa_enabled,
            webauthn_credentials: credential_rows(&records.credentials),
            org_memberships: membership_rows(&records.memberships),
            flash_message: flash_message(&params.flash),
            is_user_admin: check_user_admin(&records.effective),
            role_assignments,
            available_roles,
            available_orgs: access::build_available_orgs(&records.orgs),
            created_at_display: calendar::format_ts(user.created_at),
            updated_at_display: calendar::format_ts(user.updated_at),
            extra_permissions,
            role_inherited_groups,
            available_permissions,
            effective_permissions: records.effective,
            role_perms_json,
            attributes: sorted_attributes(&user.attributes),
            user,
            chrome: web::Chrome::admin(site, session, "users"),
        },
    )
}

// ---------------------------------------------------------------------------
// Actions on a user
// ---------------------------------------------------------------------------

/// The address of a user's page with a message; `user_id` is as the request
/// wrote it.
pub open spec fn user_address(user_id: Seq<char>, flash: Seq<char>) -> Seq<char> {
    "/ui/admin/users/"@ + user_id + "?flash="@ + flash
}

pub(crate) fn user_url(user_id: &str, flash: &str) -> (r: String)
    ensures
        r@ == user_address(user_id@, flash@),
{
    "/ui/admin/users/".to_owned().concat(user_id).concat("?flash=").concat(flash)
}

/// Tells to which address a password reset goes.
pub fn admin_user_send_reset_email(found: Result<Option<User>, web::EngineError>) -> (r: Result<
    String,
    web::Reply<()>,
>)
    ensures
        match found {
            Err(_) => r is Err && r->Err_0 is ServerError,
            Ok(None) => r is Err && r->Err_0.not_found("User not found"@),
            Ok(Some(user)) => r is Ok && r->Ok_0@ == user.email@,
        },
{
    match found {
        Err(_) => Err(web::Reply::ServerError),
        Ok(None) => Err(web::Reply::missing("User not found")),
        Ok(Some(user)) => Ok(user.email),
    }
}

/// Answers after a password reset was requested, whether or not it was sent.
pub fn admin_user_send_reset(user_id: &str) -> (r: web::Reply<()>)
    ensures
        r.redirects(user_address(user_id@, "reset_sent"@)),
{
    web::Reply::redirect(user_url(user_id, "reset_sent").as_str())
}

/// Answers after MFA was to be disabled, whether or not it was.
pub fn admin_user_disable_mfa(user_id: &str) -> (r: web::Reply<()>)
    ensures
        r.redirects(user_address(user_id@, "mfa_disabled"@)),
{
    web::Reply::redirect(user_url(user_id, "mfa_disabled").as_str())
}

/// Reads which session to revoke.
pub fn admin_user_revoke_session_request(session_id: &str) -> (r: Result<u128, web::Reply<()>>)
    ensures
        web::names_one(r, true, session_id@, "Session not found"@),
{
    web::require_one(true, session_id, "Session not found")
}

/// Answers after a session was to be revoked, whether or not it was.
pub fn admin_user_revoke_session(user_id: &str) -> (r: web::Reply<()>)
    ensures
        r.redirects(user_address(user_id@, "session_revoked"@)),
{
    web::Reply::redirect(user_url(user_id, "session_revoked").as_str())
}

/// Takes the credential to revoke from what the parts of the address denote.
pub fn credential_to_revoke(user: Option<u128>, credential: Option<Vec<u8>>) -> (r: Result<
    (u128, Vec<u8>),
    web::Reply<()>,
>)
    ensures
        match (user, credential) {
            (None, _) => r is Err && r->Err_0.not_found("User not found"@),
            (Some(_), None) => r is Err && r->Err_0.not_found("Invalid credential ID"@),
            (Some(u), Some(c)) => r == Ok::<(u128, Vec<u8>), web::Reply<()>>((u, c)),
        },
{
    match user {
        None => Err(web::Reply::missing("User not found")),
        Some(u) => match credential {
            None => Err(web::Reply::missing("Invalid credential ID")),
            Some(c) => Ok((u, c)),
        },
    }
}

/// Reads which credential of which user to revoke.
pub fn admin_user_revoke_webauthn_request(user_id: &str, cred_id_b64: &str) -> (r: Result<
    (u128, Vec<u8>),
    web::Reply<()>,
>)
    ensures
        match (codec::uuid_of(user_id@), codec::base64url_bytes(cred_id_b64@)) {
            (None, _) => r is Err && r->Err_0.not_found("User not found"@),
            (Some(_), None) => r is Err && r->Err_0.not_found("Invalid credential ID"@),
            (Some(u), Some(c)) => r is Ok && r->Ok_0.0 == u && r->Ok_0.1@ == c,
        },
{
    credential_to_revoke(codec::parse_uuid(user_id), codec::decode_base64url(cred_id_b64))
}

/// Answers after a credential was to be revoked, whether or not it was.
pub fn admin_user_revoke_webauthn(user_id: &str) -> (r: web::Reply<()>)
    ensures
        r.redirects(user_address(user_id@, "webauthn_revoked"@)),
{
    web::Reply::redirect(user_url(user_id, "webauthn_revoked").as_str())
}

// ---------------------------------------------------------------------------
// The administrator role
// ---------------------------------------------------------------------------

/// A change of role assignments.
#[derive(Clone, Copy, PartialEq, Eq, Structural)]
pub enum RoleAction {
    /// Give a user a role.
    Assign { user_id: u128, role_id: u128, scope: access::Scope, assigned_by: Option<u128> },
    /// Take an assignment back.
    Unassign(u128),
}

/// Takes back each assignment of a role.
pub open spec fn unassignments(assignments: Seq<access::Assignment>, role_id: u128) -> Seq<
    RoleAction,
>
    decreases assignments.len(),
{
    if assignments.len() == 0 {
        Seq::empty()
    } else {
        let before = unassignments(assignments.drop_last(), role_id);
        if assignments.last().role_id == role_id {
            before.push(RoleAction::Unassign(assignments.last().id))
        } else {
            before
        }
    }
}

/// Decides how the administrator role is granted or revoked: granted in the
/// whole realm, or every assignment of it taken back. `role` is what the name
/// `realm.admin` denotes once the defaults are seeded.
pub fn set_user_admin(
    user_id: u128,
    grant: bool,
    seeded: Result<(), web::EngineError>,
    role: Result<Option<u128>, web::EngineError>,
    assignments: Result<Vec<access::Assignment>, web::EngineError>,
) -> (r: Result<Vec<RoleAction>, web::EngineError>)
    ensures
        match (seeded, role) {
            (Err(e), _) => r == Err::<Vec<RoleAction>, web::EngineError>(e),
            (Ok(_), Err(e)) => r == Err::<Vec<RoleAction>, web::EngineError>(e),
            (Ok(_), Ok(None)) => r is Err && r->Err_0.kind is RoleNotFound,
            (Ok(_), Ok(Some(id))) => if grant {
                r is Ok && r->Ok_0@ == seq![
                    RoleAction::Assign {
                        user_id,
                        role_id: id,
                        scope: access::Scope::Realm,
                        assigned_by: None,
                    },
                ]
            } else {
                match assignments {
                    Err(e) => r == Err::<Vec<RoleAction>, web::EngineError>(e),
                    Ok(list) => r is Ok && r->Ok_0@ == unassignments(list@, id),
                }
            },
        },
{
    match seeded {
        Err(e) => return Err(e),
        Ok(_) => {},
    }
    let role_id: u128 = match role {
        Err(e) => return Err(e),
        Ok(None) => return Err(
            web::EngineError {
                kind: web::ErrorKind::RoleNotFound,
                text: "role not found".to_owned(),
            },
        ),
        Ok(Some(id)) => id,
    };
    let mut actions: Vec<RoleAction> = Vec::new();
    if grant {
        actions.push(
            RoleAction::Assign { user_id, role_id, scope: access::Scope::Realm, assigned_by: None },
        );
        return Ok(actions);
    }
    let list = match assignments {
        Err(e) => return Err(e),
        Ok(list) => list,
    };
    let mut i: usize = 0;
    proof {
        assert(list@.take(0) =~= Seq::<access::Assignment>::empty());
    }
    while i < list.len()
        invariant
            i <= list.len(),
            actions@ == unassignments(list@.take(i as int), role_id),
        decreases list.len() - i,
    {
        proof {
            assert(list@.take(i + 1).drop_last() =~= list@.take(i as int));
        }
        if list[i].role_id == role_id {
            actions.push(RoleAction::Unassign(list[i].id));
        }
        i += 1;
    }
    proof {
        assert(list@.take(list@.len() as int) =~= list@);
    }
    Ok(actions)
}

/// Revoking a role takes back the assignments of that role and no others.
pub proof fn law_unassignments(assignments: Seq<access::Assignment>, role_id: u128, id: u128)
    ensures
        unassignments(assignments, role_id).contains(RoleAction::Unassign(id)) <==> exists|i: int|
            0 <= i < assignments.len() && (#[trigger] assignments[i]).id == id
                && assignments[i].role_id == role_id,
    decreases assignments.len(),
{
    let r = unassignments(assignments, role_id);
    let act = RoleAction::Unassign(id);
    if assignments.len() > 0 {
        let rest = assignments.drop_last();
        let before = unassignments(rest, role_id);
        law_unassignments(rest, role_id, id);
        if r.contains(act) {
            let k = choose|k: int| 0 <= k < r.len() && r[k] == act;
            if k < before.len() {
                assert(before[k] == act);
                let i = choose|i: int|
                    0 <= i < rest.len() && (#[trigger] rest[i]).id == id && rest[i].role_id
                        == role_id;
                assert(assignments[i] == rest[i]);
            } else {
                assert(assignments[assignments.len() - 1].id == id);
            }
        }
        if exists|i: int|
            0 <= i < assignments.len() && (#[trigger] assignments[i]).id == id
                && assignments[i].role_id == role_id {
            let i = choose|i: int|
                0 <= i < assignments.len() && (#[trigger] assignments[i]).id == id
                    && assignments[i].role_id == role_id;
            if i < rest.len() {
                assert(rest[i] == assignments[i]);
                let k = choose|k: int| 0 <= k < before.len() && before[k] == act;
                assert(r[k] == act);
            } else {
                assert(r[r.len() - 1] == act);
            }
        }
    }
}

// ---------------------------------------------------------------------------
// Editing
// ---------------------------------------------------------------------------

/// An organization on the page that edits a user.
pub struct UserOrgView {
    /// Organization name, or its UUID where it is not known.
    pub org_name: String,
    /// Organization UUID.
    pub org_id: String,
    /// The role there.
    pub role: members::OrganizationRole,
}

/// An organization view without its representation.
#[verifier::ext_equal]
pub struct UserOrg {
    pub org_name: Seq<char>,
    pub org_id: Seq<char>,
    pub role: members::OrganizationRole,
}

impl View for UserOrgView {
    type V = UserOrg;

    open spec fn view(&self) -> UserOrg {
        UserOrg { org_name: self.org_name@, org_id: self.org_id@, role: self.role }
    }
}

/// The view of a membership.
pub open spec fn user_org(m: UserMembership) -> UserOrg {
    UserOrg {
        org_name: match m.org {
            Some(o) => o.name@,
            None => codec::hyphenated(m.org_id),
        },
        org_id: codec::hyphenated(m.org_id),
        role: m.role,
    }
}

/// The views of memberships.
pub open spec fn user_orgs(items: Seq<UserMembership>) -> Seq<UserOrg> {
    Seq::new(items.len(), |i: int| user_org(items[i]))
}

/// Lists the organizations to which a user belongs.
pub fn resolve_user_org_memberships(memberships: &Vec<UserMembership>) -> (r: Vec<UserOrgView>)
    ensures
        text::views(r@) == user_orgs(memberships@),
{
    let mut out: Vec<UserOrgView> = Vec::new();
    let mut i: usize = 0;
    while i < memberships.len()
        invariant
            i <= memberships.len(),
            out.len() == i,
            forall|j: int| 0 <= j < i ==> (#[trigger] out@[j])@ == user_org(memberships@[j]),
        decreases memberships.len() - i,
    {
        let m = &memberships[i];
        let org_name = match &m.org {
            Some(o) => o.name.clone(),
            None => codec::uuid_text(m.org_id),
        };
        out.push(UserOrgView { org_name, org_id: codec::uuid_text(m.org_id), role: m.role });
        i += 1;
    }
    proof {
        assert(text::views(out@) =~= user_orgs(memberships@));
    }
    out
}

/// The page that edits a user.
pub struct UserEditTemplate {
    pub user: User,
    pub error: Option<String>,
    pub form_email: String,
    pub form_display_name: String,
    pub form_first_name: String,
    pub form_last_name: String,
    pub form_status: String,
    pub is_user_admin: bool,
    pub org_memberships: Vec<UserOrgView>,
    pub chrome: web::Chrome,
}

impl UserEditTemplate {
    /// Whether the page is about a user with those permissions and
    /// memberships.
    pub open spec fn is_about(
        self,
        user: User,
        permissions: Seq<String>,
        memberships: Seq<UserMembership>,
    ) -> bool {
        &&& self.user == user
        &&& self.is_user_admin == text::texts(permissions).contains("hearth.admin"@)
        &&& text::views(self.org_memberships@) == user_orgs(memberships)
    }
}

/// Shows the form that edits a user, filled in with what the user is.
pub fn admin_user_edit_form(
    site: &web::Site,
    session: &web::UiSession,
    found: Result<Option<User>, web::EngineError>,
    permissions: &Vec<String>,
    memberships: &Vec<UserMembership>,
) -> (r: web::Reply<UserEditTemplate>)
    ensures
        match found {
            Err(_) => r is ServerError,
            Ok(None) => r.not_found("User not found"@),
            Ok(Some(user)) => r is Page && {
                let p = r->Page_0;
                &&& p.is_about(user, permissions@, memberships@)
                &&& p.error is None
                &&& p.form_email@ == user.email@
                &&& p.form_display_name@ == user.display_name@
                &&& p.form_first_name@ == user.first_name@
                &&& p.form_last_name@ == user.last_name@
                &&& p.form_status@ == user.status.name()
                &&& p.chrome.is_admin_page(*site, *session, "users"@)
                &&& p.chrome.flash is None
            },
        },
{
    match found {
        Err(_) => web::Reply::ServerError,
        Ok(None) => web::Reply::missing("User not found"),
        Ok(Some(user)) => web::Reply::Page(
            UserEditTemplate {
                error: None,
                form_email: user.email.clone(),
                form_display_name: user.display_name.clone(),
                form_first_name: user.first_name.clone(),
                form_last_name: user.last_name.clone(),
                form_status: user.status.label(),
                is_user_admin: check_user_admin(permissions),
                org_memberships: resolve_user_org_memberships(memberships),
                user,
                chrome: web::Chrome::admin(site, session, "users"),
            },
        ),
    }
}

/// The form that edits a user.
pub struct EditUserForm {
    pub email: String,
    pub display_name: String,
    pub first_name: String,
    pub last_name: String,
    pub status: String,
    /// Present where the user is to be an administrator.
    pub admin: Option<String>,
    pub csrf: String,
}

/// What the engine is asked to change of a user.
pub struct UpdateUserRequest {
    pub user_id: u128,
    pub email: String,
    pub display_name: String,
    pub first_name: String,
    pub last_name: String,
    pub status: Option<UserStatus>,
}

/// Reads what to change of which user.
pub fn admin_user_edit_submit_request(csrf_ok: bool, user_id: &str, form: &EditUserForm) -> (r:
    Result<UpdateUserRequest, web::Reply<UserEditTemplate>>)
    ensures
        !csrf_ok ==> r is Err && r->Err_0 is Forbidden,
        csrf_ok ==> match codec::uuid_of(user_id@) {
            None => r is Err && r->Err_0.not_found("User not found"@),
            Some(uid) => r is Ok && {
                let q = r->Ok_0;
                &&& q.user_id == uid
                &&& q.email@ == form.email@
                &&& q.display_name@ == form.display_name@
                &&& q.first_name@ == form.first_name@
                &&& q.last_name@ == form.last_name@
                &&& q.status == Some(status_of(form.status@))
            },
        },
{
    let user_id = match web::require_one(csrf_ok, user_id, "User not found") {
        Ok(id) => id,
        Err(reply) => return Err(reply),
    };
    Ok(
        UpdateUserRequest {
            user_id,
            email: form.email.clone(),
            display_name: form.display_name.clone(),
            first_name: form.first_name.clone(),
            last_name: form.last_name.clone(),
            status: parse_user_status(form.status.as_str()),
        },
    )
}

/// Tells whether the administrator role has to be granted (`Some(true)`),
/// revoked (`Some(false)`) or left, after a user with those permissions was
/// edited.
pub fn admin_user_edit_submit_toggle(form: &EditUserForm, permissions: &Vec<String>) -> (r: Option<
    bool,
>)
    ensures
        r == if (form.admin is Some) == text::texts(permissions@).contains("hearth.admin"@) {
            None
        } else {
            Some(form.admin is Some)
        },
{
    let want = form.admin.is_some();
    let has = check_user_admin(permissions);
    if want != has {
        Some(want)
    } else {
        None
    }
}

/// Shows the form again as it was submitted, with an error.
pub fn render_edit_error(
    site: &web::Site,
    session: &web::UiSession,
    user: Option<User>,
    permissions: &Vec<String>,
    memberships: &Vec<UserMembership>,
    msg: &str,
    form: &EditUserForm,
) -> (r: web::Reply<UserEditTemplate>)
    ensures
        match user {
            None => r.not_found("User not found"@),
            Some(u) => r is Page && {
                let p = r->Page_0;
                &&& p.is_about(u, permissions@, memberships@)
                &&& text::opt_text(p.error) == Some(msg@)
                &&& p.form_email@ == form.email@
                &&& p.form_display_name@ == form.display_name@
                &&& p.form_first_name@ == form.first_name@
                &&& p.form_last_name@ == form.last_name@
                &&& p.form_status@ == form.status@
                &&& p.chrome.is_admin_page(*site, *session, "users"@)
                &&& p.chrome.flash is None
            },
        },
{
    match user {
        None => web::Reply::missing("User not found"),
        Some(user) => web::Reply::Page(
            UserEditTemplate {
                user,
                error: Some(msg.to_owned()),
                form_email: form.email.clone(),
                form_display_name: form.display_name.clone(),
                form_first_name: form.first_name.clone(),
                form_last_name: form.last_name.clone(),
                form_status: form.status.clone(),
                is_user_admin: check_user_admin(permissions),
                org_memberships: resolve_user_org_memberships(memberships),
                chrome: web::Chrome::admin(site, session, "users"),
            },
        ),
    }
}

/// What the form says after a failure.
pub open spec fn update_user_error(e: web::EngineError) -> Seq<char> {
    match e.kind {
        web::ErrorKind::DuplicateEmail => "A user with that email already exists."@,
        web::ErrorKind::InvalidInput(reason) => reason@,
        _ => "Unable to update user right now."@,
    }
}

fn update_user_message(e: &web::EngineError) -> (r: String)
    ensures
        r@ == update_user_error(*e),
{
    match &e.kind {
        web::ErrorKind::DuplicateEmail => "A user with that email already exists.".to_owned(),
        web::ErrorKind::InvalidInput(reason) => reason.clone(),
        _ => "Unable to update user right now.".to_owned(),
    }
}

/// The events of an edited user: the administrator role, where it was granted
/// or revoked, then the edit.
pub open spec fn edit_events(
    session: web::UiSession,
    realm_id: u128,
    user_id: u128,
    toggled: Option<bool>,
) -> Seq<web::AuditEventView> {
    let edit = web::ui_event(
        session,
        realm_id,
        web::AuditAction::UserUpdated,
        "user"@,
        codec::hyphenated(user_id),
        web::via_ui(),
    );
    match toggled {
        Some(assigned) => seq![
            members::role_event(
                session,
                realm_id,
                user_id,
                assigned,
                "hearth"@,
                "admin"@,
                "admin"@,
            ),
            edit,
        ],
        None => seq![edit],
    }
}

/// Answers after the engine tried to change a user. `toggled` tells which
/// change of the administrator role succeeded; the user, the permissions and
/// the memberships are read again where the form has to be shown again.
pub fn admin_user_edit_submit(
    site: &web::Site,
    session: &web::UiSession,
    realm_id: u128,
    uid: u128,
    form: &EditUserForm,
    updated: Result<(), web::EngineError>,
    toggled: Option<bool>,
    user: Option<User>,
    permissions: &Vec<String>,
    memberships: &Vec<UserMembership>,
) -> (r: web::Outcome<UserEditTemplate>)
    ensures
        match updated {
            Ok(_) => {
                &&& r.log() == edit_events(*session, realm_id, uid, toggled)
                &&& r.reply.redirects("/ui/admin/users/"@ + codec::hyphenated(uid))
            },
            Err(e) => r.is_silent() && if e.kind is UserNotFound || user is None {
                r.reply.not_found("User not found"@)
            } else {
                r.reply is Page && {
                    let p = r.reply->Page_0;
                    &&& p.is_about(user->0, permissions@, memberships@)
                    &&& text::opt_text(p.error) == Some(update_user_error(e))
                    &&& p.form_email@ == form.email@
                    &&& p.form_display_name@ == form.display_name@
                    &&& p.form_first_name@ == form.first_name@
                    &&& p.form_last_name@ == form.last_name@
                    &&& p.form_status@ == form.status@
                    &&& p.chrome.is_admin_page(*site, *session, "users"@)
                    &&& p.chrome.flash is None
                }
            },
        },
{
    match updated {
        Ok(_) => {
            let mut events: Vec<web::AuditEvent> = Vec::new();
            if let Some(assigned) = toggled {
                events.push(
                    members::audit_role_event(
                        session,
                        realm_id,
                        uid,
                        assigned,
                        "hearth",
                        "admin",
                        "admin",
                    ),
                );
            }
            if let Some(event) = audit::audit_user_event(session, realm_id, uid, "update") {
                events.push(event);
            }
            proof {
                reveal_strlit("create");
                reveal_strlit("update");
                assert("create"@[0] == 'c' && "update"@[0] == 'u');
                assert(web::events_of(events@) =~= edit_events(*session, realm_id, uid, toggled));
            }
            let url = "/ui/admin/users/".to_owned().concat(codec::uuid_text(uid).as_str());
            web::Outcome { reply: web::Reply::redirect(url.as_str()), events }
        },
        Err(e) => {
            if let web::ErrorKind::UserNotFound = e.kind {
                return web::Outcome::silent(web::Reply::missing("User not found"));
            }
            let msg = update_user_message(&e);
            web::Outcome::silent(
                render_edit_error(site, session, user, permissions, memberships, msg.as_str(), form),
            )
        },
    }
}

// ---------------------------------------------------------------------------
// Deletion
// ---------------------------------------------------------------------------

/// The form that deletes a user.
pub struct DeleteUserForm {
    pub csrf: String,
}

/// Reads which user to delete.
pub fn admin_user_delete_request(csrf_ok: bool, user_id: &str) -> (r: Result<u128, web::Reply<()>>)
    ensures
        web::names_one(r, csrf_ok, user_id@, "User not found"@),
{
    web::require_one(csrf_ok, user_id, "User not found")
}

/// Answers after the engine tried to delete a user.
pub fn admin_user_delete(
    session: &web::UiSession,
    realm_id: u128,
    uid: u128,
    deleted: Result<(), web::EngineError>,
) -> (r: web::Outcome<()>)
    ensures
        match deleted {
            Ok(_) => {
                &&& r.log() == seq![
                    web::ui_event(
                        *session,
                        realm_id,
                        web::AuditAction::UserDeleted,
                        "user"@,
                        codec::hyphenated(uid),
                        web::via_ui(),
                    ),
                ]
                &&& r.reply.redirects("/ui/admin/users"@)
            },
            Err(e) => r.is_silent() && if e.kind is UserNotFound {
                r.reply.not_found("User not found"@)
            } else {
                r.reply is ServerError
            },
        },
{
    match deleted {
        Ok(_) => {
            let event = audit::audit_user_event(session, realm_id, uid, "delete");
            proof {
                reveal_strlit("create");
                reveal_strlit("update");
                reveal_strlit("delete");
                assert("create"@[0] == 'c' && "update"@[0] == 'u' && "delete"@[0] == 'd');
            }
            web::Outcome::noted(web::Reply::redirect("/ui/admin/users"), event)
        },
        Err(e) => match e.kind {
            web::ErrorKind::UserNotFound => web::Outcome::silent(
                web::Reply::missing("User not found"),
            ),
            _ => web::Outcome::silent(web::Reply::ServerError),
        },
    }
}

/// What is seen of a row is what it holds, each part under its own name.
pub proof fn law_rows_seen(a: UserSessionRow, b: WebAuthnCredRow, c: OrgMembershipRow, d: UserOrgView)
    ensures
        a@.id == a.id@,
        a@.created_at == a.created_at@,
        a@.expires_at == a.expires_at@,
        a@.revoked == a.revoked,
        a@.expired == a.expired,
        a@.device_label == a.device_label@,
        a@.ip_address == a.ip_address@,
        b@.id_b64url == b.id_b64url@,
        b@.id_short == b.id_short@,
        b@.algorithm == b.algorithm,
        b@.discoverable == b.discoverable,
        c@.org_id == c.org_id@,
        c@.org_name == c.org_name@,
        c@.org_slug == c.org_slug@,
        c@.role == c.role@,
        d@.org_name == d.org_name@,
        d@.org_id == d.org_id@,
        d@.role == d.role,
{
}

/// Where the page shows the roles that `records` tells of: each part of what that
/// says.
pub proof fn law_user_detail_template_shows_roles(page: UserDetailTemplate, records: UserRecords)
    requires
        page.shows_roles(records),
    ensures
        text::views(page.role_assignments@) == access::assignment_rows(records.held@),
        text::views(page.role_inherited_groups@) == access::inherited_groups(
            access::assignment_rows(records.held@),
        ),
        text::views(page.available_roles@) == access::role_choices(records.roles@),
        text::views(page.available_orgs@) == access::org_choices(records.orgs@),
        page.role_perms_json@ == json::or_empty_object(
            json::lists_json(role_entries(access::role_choices(records.roles@))),
        ),
{
}

/// Where the page shows the permissions that `records` tells of: each part of
/// what that says.
pub proof fn law_user_detail_template_shows_permissions(
    page: UserDetailTemplate,
    records: UserRecords,
)
    requires
        page.shows_permissions(records),
    ensures
        page.is_user_admin == text::texts(records.effective@).contains("hearth.admin"@),
        text::views(page.extra_permissions@) == access::grant_rows(records.grants@),
        page.effective_permissions == records.effective,
        text::texts(page.available_permissions@) == access::grantable(
            order::sorted_set(access::all_permissions(records.permission_roles@)),
            records.held@,
            text::texts(records.effective@),
            access::grant_rows(records.grants@),
        ),
{
}

/// Where the page shows a user, the time being `now`: each part of what that
/// says.
pub proof fn law_user_detail_template_shows_user(
    page: UserDetailTemplate,
    user: User,
    records: UserRecords,
    now: i64,
)
    requires
        page.shows_user(user, records, now),
    ensures
        page.user == user,
        text::views(page.sessions@) == user_sessions(records.sessions@, now),
        page.mfa_enabled == records.mfa_enabled,
        text::views(page.webauthn_credentials@) == cred_rows(records.credentials@),
        text::views(page.org_memberships@) == org_rows(records.memberships@),
        page.created_at_display@ == calendar::instant_text(user.created_at as int),
        page.updated_at_display@ == calendar::instant_text(user.updated_at as int),
        pairs_of(page.attributes@) == order::sorted(pairs_of(user.attributes@), key_order()),
{
}

/// Where the page is about a user with those permissions and memberships: each
/// part of what that says.
pub proof fn law_user_edit_template_is_about(
    page: UserEditTemplate,
    user: User,
    permissions: Seq<String>,
    memberships: Seq<UserMembership>,
)
    requires
        page.is_about(user, permissions, memberships),
    ensures
        page.user == user,
        page.is_user_admin == text::texts(permissions).contains("hearth.admin"@),
        text::views(page.org_memberships@) == user_orgs(memberships),
{
}

/// Part by part: the row of a session at the time `now`.
pub proof fn law_user_session(s: sessions::SessionInfo, now: i64)
    ensures
        user_session(s, now).id == codec::hyphenated(s.id),
        user_session(s, now).created_at == calendar::instant_text(s.created_at as int),
        user_session(s, now).expires_at == calendar::instant_text(s.expires_at as int),
        user_session(s, now).revoked == s.revoked,
        user_session(s, now).expired == (s.expires_at <= now),
        user_session(s, now).device_label == sessions::text_or(s.device_label, "Unknown device"@),
        user_session(s, now).ip_address == (sessions::text_or(s.ip_address, "\u{2014}"@)),
{
}

/// Part by part: the row of a credential.
pub proof fn law_cred_row(c: Credential)
    ensures
        cred_row(c).id_b64url == c.id_b64url@,
        cred_row(c).id_short == short_id(c.id_b64url@),
        cred_row(c).algorithm == c.algorithm,
        cred_row(c).discoverable == c.discoverable,
{
}

/// Part by part: the row of a membership.
pub proof fn law_org_row(m: UserMembership)
    ensures
        org_row(m).org_id == codec::hyphenated(m.org_id),
        org_row(m).org_name == (match m.org {
                Some(o) => o.name@,
                None => "(unknown)"@,
            }),
        org_row(m).org_slug == (match m.org {
                Some(o) => o.slug@,
                None => Seq::empty(),
            }),
        org_row(m).role == m.role.name(),
{
}

/// Part by part: the view of a membership.
pub proof fn law_user_org(m: UserMembership)
    ensures
        user_org(m).org_name == (match m.org {
                Some(o) => o.name@,
                None => codec::hyphenated(m.org_id),
            }),
        user_org(m).org_id == codec::hyphenated(m.org_id),
        user_org(m).role == m.role,
{
}

/// One for each, in order: the rows of sessions, all as of the same time.
pub proof fn law_user_sessions(
    items: Seq<sessions::SessionInfo>,
    now: i64,
    i: int,
)
    ensures
        user_sessions(items, now).len() == items.len(),
        0 <= i < items.len() ==> user_sessions(items, now)[i] == user_session(items[i], now),
{
}

/// One for each, in order: the rows of credentials.
pub proof fn law_cred_rows(items: Seq<Credential>, i: int)
    ensures
        cred_rows(items).len() == items.len(),
        0 <= i < items.len() ==> cred_rows(items)[i] == cred_row(items[i]),
{
}

/// One for each, in order: the rows of memberships.
pub proof fn law_org_rows(items: Seq<UserMembership>, i: int)
    ensures
        org_rows(items).len() == items.len(),
        0 <= i < items.len() ==> org_rows(items)[i] == org_row(items[i]),
{
}

/// One for each, in order: the permissions that each role grants, by the UUID of
/// the role.
pub proof fn law_role_entries(roles: Seq<access::RoleChoice>, i: int)
    ensures
        role_entries(roles).len() == roles.len(),
        0 <= i < roles.len() ==> role_entries(roles)[i] == (roles[i].id, roles[i].permissions),
{
}

/// One for each, in order: the views of memberships.
pub proof fn law_user_orgs(items: Seq<UserMembership>, i: int)
    ensures
        user_orgs(items).len() == items.len(),
        0 <= i < items.len() ==> user_orgs(items)[i] == user_org(items[i]),
{
}

/// What is read of the users is limited: twenty to a page, two hundred to a
/// search.
pub proof fn law_user_limits()
    ensures
        PAGE_SIZE == 20,
        SEARCH_WINDOW == 200,
        USER_SESSIONS == 10,
        USER_ORGS == 50,
{
}

/// A status goes by its own name, and a word that is none means an active user.
pub proof fn law_status_names(status: UserStatus, word: Seq<char>)
    ensures
        status is Active ==> status.name() == "Active"@,
        status is Disabled ==> status.name() == "Disabled"@,
        status is PendingVerification ==> status.name() == "PendingVerification"@,
        status_of(word) is Disabled <==> word == "Disabled"@,
        word == "PendingVerification"@ ==> status_of(word) is PendingVerification,
        word != "Disabled"@ && word != "PendingVerification"@ ==> status_of(word) is Active,
{
    reveal_strlit("Disabled");
    reveal_strlit("PendingVerification");
    assert("Disabled"@.len() == 8 && "PendingVerification"@.len() == 19);
}

/// A text of two bytes or more is searched for as it is; a shorter one browses,
/// from the place that was asked for.
pub proof fn law_asks_list(r: ListQuery, q: Option<String>, cursor: Option<String>, window: usize)
    ensures
        q matches Some(s) ==> search_text(q) == s@,
        q is None ==> search_text(q).len() == 0,
        asks_list(r, search_text(q), cursor, window) ==> {
            &&& r is Search <==> text::byte_len(search_text(q)) >= 2
            &&& r matches ListQuery::Search { text, limit } ==> text@ == search_text(q) && limit
                == window
            &&& r matches ListQuery::Browse { cursor: c, limit } ==> text::opt_text(c)
                == text::opt_text(cursor) && limit == PAGE_SIZE
        },
{
}

/// A search is made exactly where there is something to search for, with that
/// text and that limit.
pub proof fn law_searches(r: Option<UserSearch>, wanted: Option<Seq<char>>, limit: usize)
    requires
        searches(r, wanted, limit),
    ensures
        r is Some <==> wanted is Some,
        r matches Some(s) ==> Some(s.text@) == wanted && s.limit == limit,
{
}

/// Refusals of a new and of a changed user are told in their own words.
pub proof fn law_user_errors(e: web::EngineError)
    ensures
        e.kind is DuplicateEmail ==> create_user_error(e) == "A user with that email already exists."@
            && update_user_error(e) == "A user with that email already exists."@,
        e.kind matches web::ErrorKind::InvalidInput(reason) ==> create_user_error(e) == reason@
            && update_user_error(e) == reason@,
        !(e.kind is DuplicateEmail) && !(e.kind is InvalidInput) ==> create_user_error(e)
            == "Unable to create user right now."@ && update_user_error(e)
            == "Unable to update user right now."@,
{
}

/// A short identifier is shown whole, a long one by its first sixteen bytes.
pub proof fn law_short_id(id: Seq<char>)
    ensures
        text::byte_len(id) <= 16 ==> short_id(id) == id,
        text::byte_len(id) > 16 ==> short_id(id) == text::first_bytes(id, 16) + "..."@,
{
}

/// Each key stands for its own message, and any other text for itself.
pub proof fn law_flash_text(key: Seq<char>)
    ensures
        flash_text("reset_sent"@) == "Password reset email requested."@,
        flash_text("mfa_disabled"@) == "MFA has been disabled for this user."@,
        flash_text("session_revoked"@) == "Session revoked."@,
        flash_text("webauthn_revoked"@) == "WebAuthn credential revoked."@,
        flash_text("role_assigned"@) == "Role assigned."@,
        flash_text("role_unassigned"@) == "Role removed."@,
        flash_text("permission_granted"@) == "Permission granted."@,
        flash_text("permission_revoked"@) == "Permission revoked."@,
        flash_text(key) == key || key == "reset_sent"@ || key == "mfa_disabled"@ || key
            == "session_revoked"@ || key == "webauthn_revoked"@ || key == "role_assigned"@ || key
            == "role_unassigned"@ || key == "permission_granted"@ || key == "permission_revoked"@,
{
    reveal_strlit("reset_sent");
    reveal_strlit("mfa_disabled");
    reveal_strlit("session_revoked");
    reveal_strlit("webauthn_revoked");
    reveal_strlit("role_assigned");
    reveal_strlit("role_unassigned");
    reveal_strlit("permission_granted");
    reveal_strlit("permission_revoked");
    assert("reset_sent"@.len() == 10 && "mfa_disabled"@.len() == 12);
    assert("session_revoked"@.len() == 15 && "webauthn_revoked"@.len() == 16);
    assert("role_assigned"@.len() == 13);
    assert("role_unassigned"@[0] == 'r' && "session_revoked"@[0] == 's');
    assert("permission_granted"@[11] == 'g' && "permission_revoked"@[11] == 'r');
}

/// The attributes are shown by key, every one of them and no others.
pub proof fn law_attributes(attributes: Seq<(String, String)>, i: int, j: int)
    ensures
        order::sorted(pairs_of(attributes), key_order()).to_multiset() == pairs_of(
            attributes,
        ).to_multiset(),
        0 <= i < j < attributes.len() ==> text::text_le(
            order::sorted(pairs_of(attributes), key_order())[i].0,
            order::sorted(pairs_of(attributes), key_order())[j].0,
        ),
        pairs_of(attributes).len() == attributes.len(),
        0 <= i < attributes.len() ==> pairs_of(attributes)[i] == (
            attributes[i].0@,
            attributes[i].1@,
        ),
{
    let le = key_order();
    let pairs = pairs_of(attributes);
    assert forall|a: (Seq<char>, Seq<char>), b: (Seq<char>, Seq<char>)| #[trigger]
        le(a, b) || le(b, a) by {
        text::lemma_text_le_total(a.0, b.0);
    }
    assert forall|
        a: (Seq<char>, Seq<char>),
        b: (Seq<char>, Seq<char>),
        c: (Seq<char>, Seq<char>),
    | #[trigger] le(a, b) && #[trigger] le(b, c) implies le(a, c) by {
        text::lemma_text_le_transitive(a.0, b.0, c.0);
    }
    order::law_sorted(pairs, le);
    let s = order::sorted(pairs, le);
    s.to_multiset_ensures();
    pairs.to_multiset_ensures();
    assert(s.len() == s.to_multiset().len() && pairs.len() == pairs.to_multiset().len());
    if 0 <= i < j < attributes.len() {
        assert(le(s[i], s[j]));
    }
}

/// The address of a user's page holds the identifier as a step of its path and
/// the key of the message in its query.
pub proof fn law_user_address(user_id: Seq<char>, flash: Seq<char>)
    requires
        !user_id.contains('?'),
        !flash.contains('&'),
    ensures
        text::has_prefix(user_address(user_id, flash), "/ui/admin/users/"@ + user_id + "?"@),
        query::query_of(user_address(user_id, flash)) == Some("flash="@ + flash),
        query::value_after(query::params_of("flash="@ + flash), "flash="@) == Some(flash),
{
    reveal_strlit("/ui/admin/users/");
    reveal_strlit("?flash=");
    reveal_strlit("flash=");
    reveal_strlit("?");
    let a = user_address(user_id, flash);
    let path = "/ui/admin/users/"@ + user_id;
    assert(!path.contains('?')) by {
        if path.contains('?') {
            let i = choose|i: int| 0 <= i < path.len() && path[i] == '?';
            assert(i >= 16);
            assert(user_id[i - 16] == '?');
        }
    }
    assert(a =~= path + seq!['?'] + ("flash="@ + flash));
    assert(a.subrange(0, (path + "?"@).len() as int) =~= path + "?"@);
    query::lemma_query_of(path, "flash="@ + flash);
    query::law_value_round_trip("flash="@, flash);
}

/// An edit is recorded of the user; where it gives or takes the administrator's
/// role, that is recorded before it.
pub proof fn law_edit_events(
    session: web::UiSession,
    realm_id: u128,
    user_id: u128,
    toggled: Option<bool>,
)
    ensures
        ({
            let log = edit_events(session, realm_id, user_id, toggled);
            let last = log.last();
            &&& toggled is None ==> log.len() == 1
            &&& toggled is Some ==> log.len() == 2
            &&& last.action is UserUpdated
            &&& last.realm_id == realm_id
            &&& last.actor == codec::hyphenated(session.user_id)
            &&& last.resource_type == "user"@
            &&& last.resource_id == codec::hyphenated(user_id)
            &&& toggled == Some(true) ==> log[0].action is RoleAssigned
            &&& toggled == Some(false) ==> log[0].action is RoleRevoked
            &&& toggled is Some ==> {
                &&& log[0].resource_id == codec::hyphenated(user_id)
                &&& web::told(log[0].metadata, "object_type"@) == Some(
                    web::MetaView::Text("hearth"@),
                )
                &&& web::told(log[0].metadata, "object_id"@) == Some(
                    web::MetaView::Text("admin"@),
                )
                &&& web::told(log[0].metadata, "role"@) == Some(web::MetaView::Text("admin"@))
            }
        }),
{
    members::law_role_event(
        session,
        realm_id,
        user_id,
        toggled == Some(true),
        "hearth"@,
        "admin"@,
        "admin"@,
    );
}

/// Exactly the assignments of that role are taken back, in their order.
pub proof fn law_unassigned(assignments: Seq<access::Assignment>, role_id: u128)
    ensures
        unassignments(assignments, role_id) == assignments.filter(
            |a: access::Assignment| a.role_id == role_id,
        ).map_values(
            |a: access::Assignment| RoleAction::Unassign(a.id),
        ),
    decreases assignments.len(),
{
    let keep = |a: access::Assignment| a.role_id == role_id;
    let row = |a: access::Assignment| RoleAction::Unassign(a.id);
    reveal(Seq::filter);
    if assignments.len() > 0 {
        law_unassigned(assignments.drop_last(), role_id);
        let before = assignments.drop_last().filter(keep);
        if keep(assignments.last()) {
            assert(before.push(assignments.last()).map_values(row) =~= before.map_values(row).push(
                row(assignments.last()),
            ));
        }
    } else {
        assert(assignments.filter(keep).map_values(row) =~= Seq::<RoleAction>::empty());
    }
}

} // verus!
