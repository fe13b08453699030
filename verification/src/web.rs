//! What handlers take and give: sessions, page chrome, replies, audit events
//! and engine errors.

use crate::codec;
use crate::query;
use crate::text;
use vstd::prelude::*;
use vstd::string::*;

verus! {

// ---------------------------------------------------------------------------
// Session and chrome
// ---------------------------------------------------------------------------

/// The signed-in user's session.
pub struct UiSession {
    pub realm_id: u128,
    pub user_id: u128,
    pub session_id: u128,
    pub user_email: String,
    pub csrf: Option<String>,
}

/// What every page shows of the installation.
pub struct Site {
    pub product_name: String,
    pub logo_url: String,
    pub theme_css: String,
    pub realm_theme_css: Option<String>,
}

/// Whether a message tells of a success or an error.
#[derive(Clone, Copy, PartialEq, Eq, Structural)]
pub enum FlashKind {
    Success,
    Error,
}

impl FlashKind {
    /// The wire name of a kind.
    pub open spec fn name(self) -> Seq<char> {
        match self {
            FlashKind::Success => "success"@,
            FlashKind::Error => "error"@,
        }
    }

    /// The wire name of a kind.
    pub fn label(self) -> (r: String)
        ensures
            r@ == self.name(),
    {
        match self {
            FlashKind::Success => "success".to_owned(),
            FlashKind::Error => "error".to_owned(),
        }
    }
}

/// A message shown once at the top of a page.
pub struct Flash {
    pub kind: FlashKind,
    pub message: String,
}

impl Flash {
    /// Whether the message reads `message` and is of kind `kind`.
    pub open spec fn says(self, kind: FlashKind, message: Seq<char>) -> bool {
        self.kind == kind && self.message@ == message
    }

    /// A message about a success.
    pub fn success(message: String) -> (r: Flash)
        ensures
            r.says(FlashKind::Success, message@),
            r.kind == FlashKind::Success,
            r.message@ == message@,
    {
        Flash { kind: FlashKind::Success, message }
    }

    /// A message about an error.
    pub fn error(message: String) -> (r: Flash)
        ensures
            r.says(FlashKind::Error, message@),
            r.kind == FlashKind::Error,
            r.message@ == message@,
    {
        Flash { kind: FlashKind::Error, message }
    }
}

/// The message that `?flash=…&flash_kind=…` asks for: an error where the kind
/// says so, else a success.
pub open spec fn asked_kind(kind: Option<Seq<char>>) -> FlashKind {
    if kind == Some("error"@) {
        FlashKind::Error
    } else {
        FlashKind::Success
    }
}

/// Reads a message from the query parameters.
pub fn flash_from_query(message: &Option<String>, kind: &Option<String>) -> (r: Option<Flash>)
    ensures
        r is Some == (message is Some),
        r matches Some(f) ==> f.says(asked_kind(text::opt_text(*kind)), (message->0)@),
        r matches Some(f) ==> f.message@ == (message->0)@ && (f.kind == FlashKind::Error <==> (kind
            matches Some(k) && k@ == "error"@)),
{
    match message {
        None => None,
        Some(m) => {
            let error = match kind {
                Some(k) => text::same(k.as_str(), "error"),
                None => false,
            };
            if error {
                Some(Flash::error(m.clone()))
            } else {
                Some(Flash::success(m.clone()))
            }
        },
    }
}

/// The layout fields of a page.
pub struct Chrome {
    pub chrome: bool,
    pub active: String,
    pub user_email: Option<String>,
    pub is_admin: bool,
    pub flash: Option<Flash>,
    pub csrf: Option<String>,
    pub narrow: bool,
    pub product_name: String,
    pub logo_url: String,
    pub theme_css: String,
    pub realm_theme_css: Option<String>,
}

impl Chrome {
    /// Whether the layout is that of a page of `site` for `session`, in the
    /// section `active`.
    pub open spec fn is_for(
        self,
        site: Site,
        session: UiSession,
        active: Seq<char>,
        is_admin: bool,
        narrow: bool,
    ) -> bool {
        &&& self.chrome
        &&& self.active@ == active
        &&& text::opt_text(self.user_email) == Some(session.user_email@)
        &&& self.is_admin == is_admin
        &&& text::opt_text(self.csrf) == text::opt_text(session.csrf)
        &&& self.narrow == narrow
        &&& self.product_name@ == site.product_name@
        &&& self.logo_url@ == site.logo_url@
        &&& self.theme_css@ == site.theme_css@
        &&& text::opt_text(self.realm_theme_css) == text::opt_text(site.realm_theme_css)
    }

    /// Whether the layout is that of an administration page.
    pub open spec fn is_admin_page(self, site: Site, session: UiSession, active: Seq<char>) -> bool {
        self.is_for(site, session, active, true, false)
    }

    /// Whether the layout is that of an account page.
    pub open spec fn is_account_page(
        self,
        site: Site,
        session: UiSession,
        active: Seq<char>,
        is_admin: bool,
    ) -> bool {
        self.is_for(site, session, active, is_admin, true)
    }

    /// The layout of a page.
    pub fn new(
        site: &Site,
        session: &UiSession,
        active: &str,
        is_admin: bool,
        narrow: bool,
        flash: Option<Flash>,
    ) -> (r: Chrome)
        ensures
            r.is_for(*site, *session, active@, is_admin, narrow),
            r.flash == flash,
            r.chrome,
            r.active@ == active@,
            r.user_email matches Some(email) && email@ == session.user_email@,
            r.is_admin == is_admin,
            text::opt_text(r.csrf) == text::opt_text(session.csrf),
            r.narrow == narrow,
            r.product_name@ == site.product_name@,
            r.logo_url@ == site.logo_url@,
            r.theme_css@ == site.theme_css@,
            text::opt_text(r.realm_theme_css) == text::opt_text(site.realm_theme_css),
    {
        Chrome {
            chrome: true,
            active: active.to_owned(),
            user_email: Some(session.user_email.clone()),
            is_admin,
            flash,
            csrf: text::clone_opt(&session.csrf),
            narrow,
            product_name: site.product_name.clone(),
            logo_url: site.logo_url.clone(),
            theme_css: site.theme_css.clone(),
            realm_theme_css: text::clone_opt(&site.realm_theme_css),
        }
    }

    /// The layout of an administration page without a message.
    pub fn admin(site: &Site, session: &UiSession, active: &str) -> (r: Chrome)
        ensures
            r.is_admin_page(*site, *session, active@),
            r.flash is None,
    {
        Chrome::new(site, session, active, true, false, None)
    }
}

// ---------------------------------------------------------------------------
// Replies
// ---------------------------------------------------------------------------

/// What a handler answers; `P` is the page that it renders.
pub enum Reply<P> {
    /// A page.
    Page(P),
    /// A redirect.
    Redirect(String),
    /// A redirect with a message for the next page.
    RedirectFlash { url: String, message: String, kind: FlashKind },
    /// A redirect that drops the session cookies.
    SignOut(String),
    /// An empty body with a message that the page in place shows.
    Toast { message: String, kind: FlashKind },
    /// The request lacks the CSRF token.
    Forbidden,
    /// There is no such thing.
    NotFound(String),
    /// There is no such thing, told in the layout of the signed-in user.
    NotFoundAuthed(String),
    /// The request makes no sense.
    BadRequest(String),
    /// The engine failed.
    ServerError,
}

impl<P> Reply<P> {
    /// Whether the reply redirects to `url`.
    pub open spec fn redirects(self, url: Seq<char>) -> bool {
        self matches Reply::Redirect(u) && u@ == url
    }

    /// Whether the reply redirects to `url` with a message.
    pub open spec fn flashes(self, url: Seq<char>, message: Seq<char>, kind: FlashKind) -> bool {
        self matches Reply::RedirectFlash { url: u, message: m, kind: k } && u@ == url && m@
            == message && k == kind
    }

    /// Whether the reply redirects to `url` and drops the session cookies.
    pub open spec fn signs_out(self, url: Seq<char>) -> bool {
        self matches Reply::SignOut(u) && u@ == url
    }

    /// Whether the reply only shows a message.
    pub open spec fn toasts(self, message: Seq<char>, kind: FlashKind) -> bool {
        self matches Reply::Toast { message: m, kind: k } && m@ == message && k == kind
    }

    /// Whether the reply says that there is no such thing.
    pub open spec fn not_found(self, message: Seq<char>) -> bool {
        self matches Reply::NotFound(m) && m@ == message
    }

    /// Whether the reply says that there is no such thing, in the layout of the
    /// signed-in user.
    pub open spec fn not_found_authed(self, message: Seq<char>) -> bool {
        self matches Reply::NotFoundAuthed(m) && m@ == message
    }

    /// Whether the reply says that the request makes no sense.
    pub open spec fn bad_request(self, message: Seq<char>) -> bool {
        self matches Reply::BadRequest(m) && m@ == message
    }

    /// A redirect.
    pub fn redirect(url: &str) -> (r: Reply<P>)
        ensures
            r.redirects(url@),
            r matches Reply::Redirect(u) && u@ == url@,
    {
        Reply::Redirect(url.to_owned())
    }

    /// A redirect with a message.
    pub fn flash(url: &str, message: &str, kind: FlashKind) -> (r: Reply<P>)
        ensures
            r.flashes(url@, message@, kind),
            r matches Reply::RedirectFlash { url: u, message: m, kind: k } && u@ == url@ && m@
                == message@ && k == kind,
    {
        Reply::RedirectFlash { url: url.to_owned(), message: message.to_owned(), kind }
    }

    /// A message only.
    pub fn toast(message: &str, kind: FlashKind) -> (r: Reply<P>)
        ensures
            r.toasts(message@, kind),
            r matches Reply::Toast { message: m, kind: k } && m@ == message@ && k == kind,
    {
        Reply::Toast { message: message.to_owned(), kind }
    }

    /// There is no such thing.
    pub fn missing(message: &str) -> (r: Reply<P>)
        ensures
            r.not_found(message@),
            r matches Reply::NotFound(m) && m@ == message@,
    {
        Reply::NotFound(message.to_owned())
    }
}

/// A redirect with a status of its own.
pub struct StatusRedirect {
    pub status: u16,
    pub location: String,
}

/// Refuses a request without the CSRF token.
pub fn require_csrf<P>(csrf_ok: bool) -> (r: Result<(), Reply<P>>)
    ensures
        if csrf_ok {
            r is Ok
        } else {
            r is Err && r->Err_0 is Forbidden
        },
{
    if csrf_ok {
        Ok(())
    } else {
        Err(Reply::Forbidden)
    }
}

/// The answer to a request that names one thing: refused without the CSRF
/// token, not found where the name is no UUID, else the UUID.
pub open spec fn names_one<P>(
    r: Result<u128, Reply<P>>,
    csrf_ok: bool,
    raw: Seq<char>,
    missing: Seq<char>,
) -> bool {
    if !csrf_ok {
        r is Err && r->Err_0 is Forbidden
    } else {
        match codec::uuid_of(raw) {
            Some(id) => r == Ok::<u128, Reply<P>>(id),
            None => r is Err && r->Err_0.not_found(missing),
        }
    }
}

/// Reads the one thing that a request names.
pub fn require_one<P>(csrf_ok: bool, raw: &str, missing: &str) -> (r: Result<u128, Reply<P>>)
    ensures
        names_one(r, csrf_ok, raw@, missing@),
{
    if !csrf_ok {
        return Err(Reply::Forbidden);
    }
    match codec::parse_uuid(raw) {
        Some(id) => Ok(id),
        None => Err(Reply::missing(missing)),
    }
}

/// The answer to a request that names two things.
pub open spec fn names_two<P>(
    r: Result<(u128, u128), Reply<P>>,
    csrf_ok: bool,
    first: Seq<char>,
    no_first: Seq<char>,
    second: Seq<char>,
    no_second: Seq<char>,
) -> bool {
    if !csrf_ok {
        r is Err && r->Err_0 is Forbidden
    } else {
        match (codec::uuid_of(first), codec::uuid_of(second)) {
            (None, _) => r is Err && r->Err_0.not_found(no_first),
            (Some(_), None) => r is Err && r->Err_0.not_found(no_second),
            (Some(a), Some(b)) => r == Ok::<(u128, u128), Reply<P>>((a, b)),
        }
    }
}

/// Reads the two things that a request names.
pub fn require_two<P>(csrf_ok: bool, first: &str, no_first: &str, second: &str, no_second: &str) -> (r:
    Result<(u128, u128), Reply<P>>)
    ensures
        names_two(r, csrf_ok, first@, no_first@, second@, no_second@),
{
    if !csrf_ok {
        return Err(Reply::Forbidden);
    }
    match codec::parse_uuid(first) {
        None => Err(Reply::missing(no_first)),
        Some(a) => match codec::parse_uuid(second) {
            None => Err(Reply::missing(no_second)),
            Some(b) => Ok((a, b)),
        },
    }
}

/// The JSON of the `HX-Trigger` header that shows a message: the quotes of the
/// message are escaped.
pub open spec fn toast_json(message: Seq<char>, kind: FlashKind) -> Seq<char> {
    "{\"showToast\":{\"message\":\""@ + text::replaced(message, '"', "\\\""@) + "\",\"kind\":\""@
        + text::replaced(kind.name(), '"', "\\\""@) + "\"}}"@
}

/// Writes the `HX-Trigger` header that shows a message.
pub fn toast_header(message: &str, kind: FlashKind) -> (r: String)
    ensures
        r@ == toast_json(message@, kind),
{
    "{\"showToast\":{\"message\":\"".to_owned().concat(
        text::replace_char(message, '"', "\\\"").as_str(),
    ).concat("\",\"kind\":\"").concat(
        text::replace_char(kind.label().as_str(), '"', "\\\"").as_str(),
    ).concat("\"}}")
}

/// Whether a request comes from HTMX: its `HX-Request` header, where it is
/// text, reads `true`.
pub fn is_htmx_request(header: &Option<String>) -> (r: bool)
    ensures
        r == (text::opt_text(*header) == Some("true"@)),
{
    match header {
        Some(v) => text::same(v.as_str(), "true"),
        None => false,
    }
}

// ---------------------------------------------------------------------------
// Audit events
// ---------------------------------------------------------------------------

/// What an audit event records.
#[derive(Clone, Copy, PartialEq, Eq, Structural)]
pub enum AuditAction {
    ClientDeleted,
    ClientRegistered,
    ClientUpdated,
    ConsentRevoked,
    CredentialChanged,
    GroupCreated,
    GroupDeleted,
    GroupMemberAdded,
    GroupMemberRemoved,
    GroupUpdated,
    OrgCreated,
    OrgDeleted,
    OrgUpdated,
    RealmCreated,
    RealmDeleted,
    RealmUpdated,
    RoleAssigned,
    RoleRevoked,
    SessionRevoked,
    UserCreated,
    UserDeleted,
    UserPermissionGranted,
    UserPermissionRevoked,
    UserUpdated,
}

/// A value in the metadata of an audit event.
pub enum Meta {
    Text(String),
    Flag(bool),
}

/// A metadata value without its representation.
pub enum MetaView {
    Text(Seq<char>),
    Flag(bool),
}

impl View for Meta {
    type V = MetaView;

    open spec fn view(&self) -> MetaView {
        match self {
            Meta::Text(s) => MetaView::Text(s@),
            Meta::Flag(b) => MetaView::Flag(*b),
        }
    }
}

/// An event for the audit log.
pub struct AuditEvent {
    pub realm_id: u128,
    pub actor: String,
    pub action: AuditAction,
    pub resource_type: String,
    pub resource_id: String,
    pub metadata: Vec<(String, Meta)>,
}

/// An audit event without its representation.
#[verifier::ext_equal]
pub struct AuditEventView {
    pub realm_id: u128,
    pub actor: Seq<char>,
    pub action: AuditAction,
    pub resource_type: Seq<char>,
    pub resource_id: Seq<char>,
    pub metadata: Seq<(Seq<char>, MetaView)>,
}

impl View for AuditEvent {
    type V = AuditEventView;

    open spec fn view(&self) -> AuditEventView {
        AuditEventView {
            realm_id: self.realm_id,
            actor: self.actor@,
            action: self.action,
            resource_type: self.resource_type@,
            resource_id: self.resource_id@,
            metadata: Seq::new(
                self.metadata@.len(),
                |i: int| (self.metadata@[i].0@, self.metadata@[i].1@),
            ),
        }
    }
}

/// The events of a list.
pub open spec fn events_of(v: Seq<AuditEvent>) -> Seq<AuditEventView> {
    Seq::new(v.len(), |i: int| v[i]@)
}

/// An event that the signed-in user caused in the web console.
pub open spec fn ui_event(
    session: UiSession,
    realm_id: u128,
    action: AuditAction,
    resource_type: Seq<char>,
    resource_id: Seq<char>,
    metadata: Seq<(Seq<char>, MetaView)>,
) -> AuditEventView {
    AuditEventView {
        realm_id,
        actor: codec::hyphenated(session.user_id),
        action,
        resource_type,
        resource_id,
        metadata,
    }
}

/// The metadata of an event that only says that it came from the console.
pub open spec fn via_ui() -> Seq<(Seq<char>, MetaView)> {
    seq![("via"@, MetaView::Text("ui"@))]
}

/// One text entry of metadata.
pub fn meta_text(key: &str, value: &str) -> (r: (String, Meta))
    ensures
        r.0@ == key@,
        r.1@ == MetaView::Text(value@),
{
    (key.to_owned(), Meta::Text(value.to_owned()))
}

/// Records an event that the signed-in user caused.
pub fn record(
    session: &UiSession,
    realm_id: u128,
    action: AuditAction,
    resource_type: &str,
    resource_id: &str,
    metadata: Vec<(String, Meta)>,
) -> (r: AuditEvent)
    ensures
        r@ == ui_event(
            *session,
            realm_id,
            action,
            resource_type@,
            resource_id@,
            Seq::new(metadata@.len(), |i: int| (metadata@[i].0@, metadata@[i].1@)),
        ),
        r.realm_id == realm_id,
        r.actor@ == codec::hyphenated(session.user_id),
        r.action == action,
        r.resource_type@ == resource_type@,
        r.resource_id@ == resource_id@,
        r.metadata == metadata,
{
    AuditEvent {
        realm_id,
        actor: codec::uuid_text(session.user_id),
        action,
        resource_type: resource_type.to_owned(),
        resource_id: resource_id.to_owned(),
        metadata,
    }
}

/// Records an event whose metadata only says that it came from the console.
pub fn record_ui(
    session: &UiSession,
    realm_id: u128,
    action: AuditAction,
    resource_type: &str,
    resource: u128,
) -> (r: AuditEvent)
    ensures
        r@ == ui_event(
            *session,
            realm_id,
            action,
            resource_type@,
            codec::hyphenated(resource),
            via_ui(),
        ),
        r.realm_id == realm_id,
        r.actor@ == codec::hyphenated(session.user_id),
        r.action == action,
        r.resource_type@ == resource_type@,
        r.resource_id@ == codec::hyphenated(resource),
        told(r@.metadata, "via"@) == Some(MetaView::Text("ui"@)),
{
    let mut metadata: Vec<(String, Meta)> = Vec::new();
    metadata.push(meta_text("via", "ui"));
    let r = record(
        session,
        realm_id,
        action,
        resource_type,
        codec::uuid_text(resource).as_str(),
        metadata,
    );
    proof {
        assert(r@.metadata =~= via_ui());
    }
    r
}

/// A reply and the events that go to the audit log with it.
pub struct Outcome<P> {
    pub reply: Reply<P>,
    pub events: Vec<AuditEvent>,
}

impl<P> Outcome<P> {
    /// The events of the outcome.
    pub open spec fn log(self) -> Seq<AuditEventView> {
        events_of(self.events@)
    }

    /// Whether nothing is logged.
    pub open spec fn is_silent(self) -> bool {
        self.log().len() == 0
    }

    /// An outcome that logs nothing.
    pub fn silent(reply: Reply<P>) -> (r: Outcome<P>)
        ensures
            r.reply == reply,
            r.is_silent(),
            r.events@.len() == 0,
    {
        Outcome { reply, events: Vec::new() }
    }

    /// An outcome that logs an event, where there is one.
    pub fn noted(reply: Reply<P>, event: Option<AuditEvent>) -> (r: Outcome<P>)
        ensures
            r.reply == reply,
            r.log() == match event {
                Some(e) => seq![e@],
                None => Seq::empty(),
            },
            event matches Some(e) ==> r.events@ == seq![e],
            event is None ==> r.events@.len() == 0,
    {
        match event {
            Some(e) => Outcome::logged(reply, e),
            None => {
                let r = Outcome::silent(reply);
                proof {
                    assert(r.log() =~= Seq::<AuditEventView>::empty());
                }
                r
            },
        }
    }

    /// An outcome that logs one event.
    pub fn logged(reply: Reply<P>, event: AuditEvent) -> (r: Outcome<P>)
        ensures
            r.reply == reply,
            r.log() == seq![event@],
            r.events@ == seq![event],
    {
        let mut events: Vec<AuditEvent> = Vec::new();
        events.push(event);
        proof {
            assert(events_of(events@) =~= seq![event@]);
        }
        Outcome { reply, events }
    }
}

// ---------------------------------------------------------------------------
// Engine errors
// ---------------------------------------------------------------------------

/// The errors of the engines that the console tells apart.
pub enum ErrorKind {
    AlreadyMember,
    ConsentNotFound,
    DuplicateEmail,
    DuplicateGroupSlug,
    DuplicateOrgSlug,
    DuplicateRealmName,
    DuplicateRoleName,
    FederationNotLinked,
    InvalidClient,
    InvalidCredential,
    InvalidInput(String),
    InvalidMfaCode,
    InvalidRoleName(String),
    MfaAlreadyEnabled,
    MfaNotEnabled,
    OrganizationNotFound,
    RealmNotFound,
    RoleNotFound,
    SessionNotFound,
    UserNotFound,
    Other,
}

/// An error of an engine with its text.
pub struct EngineError {
    pub kind: ErrorKind,
    pub text: String,
}

// ---------------------------------------------------------------------------
// The realm that a page is about
// ---------------------------------------------------------------------------

/// How the addresses of a realm's pages are written.
#[derive(Clone, Copy, PartialEq, Eq, Structural)]
pub enum Routes {
    /// `/ui/admin/<section>…?realm=<name>`.
    Flat,
    /// `/ui/admin/realms/<name>/<section>…`.
    Nested,
}

/// The realm that a page is about.
pub struct TargetRealm {
    pub id: u128,
    pub name: String,
    pub routes: Routes,
}

/// The address of the list of a section of a realm.
pub open spec fn list_address(target: TargetRealm, section: Seq<char>) -> Seq<char> {
    match target.routes {
        Routes::Flat => "/ui/admin/"@ + section + "?realm="@ + target.name@,
        Routes::Nested => "/ui/admin/realms/"@ + target.name@ + "/"@ + section,
    }
}

/// The address of one item of a section of a realm.
pub open spec fn item_address(target: TargetRealm, section: Seq<char>, id: u128) -> Seq<char> {
    match target.routes {
        Routes::Flat => "/ui/admin/"@ + section + "/"@ + codec::hyphenated(id) + "?realm="@
            + target.name@,
        Routes::Nested => "/ui/admin/realms/"@ + target.name@ + "/"@ + section + "/"@
            + codec::hyphenated(id),
    }
}

/// Writes the address of the list of a section.
pub fn list_url(target: &TargetRealm, section: &str) -> (r: String)
    ensures
        r@ == list_address(*target, section@),
{
    match target.routes {
        Routes::Flat => "/ui/admin/".to_owned().concat(section).concat("?realm=").concat(
            target.name.as_str(),
        ),
        Routes::Nested => "/ui/admin/realms/".to_owned().concat(target.name.as_str()).concat(
            "/",
        ).concat(section),
    }
}

/// Writes the address of one item of a section.
pub fn item_url(target: &TargetRealm, section: &str, id: u128) -> (r: String)
    ensures
        r@ == item_address(*target, section@, id),
{
    match target.routes {
        Routes::Flat => "/ui/admin/".to_owned().concat(section).concat("/").concat(
            codec::uuid_text(id).as_str(),
        ).concat("?realm=").concat(target.name.as_str()),
        Routes::Nested => "/ui/admin/realms/".to_owned().concat(target.name.as_str()).concat(
            "/",
        ).concat(section).concat("/").concat(codec::uuid_text(id).as_str()),
    }
}

// ---------------------------------------------------------------------------
// What replies, events and addresses say
// ---------------------------------------------------------------------------

/// What an event tells under a key.
pub open spec fn told(metadata: Seq<(Seq<char>, MetaView)>, key: Seq<char>) -> Option<MetaView>
    decreases metadata.len(),
{
    if metadata.len() == 0 {
        None
    } else if metadata.last().0 == key {
        Some(metadata.last().1)
    } else {
        told(metadata.drop_last(), key)
    }
}

/// An event tells what was put last under a key.
pub proof fn lemma_told_push(
    metadata: Seq<(Seq<char>, MetaView)>,
    key: Seq<char>,
    value: MetaView,
    other: Seq<char>,
)
    ensures
        told(metadata.push((key, value)), other) == if other == key {
            Some(value)
        } else {
            told(metadata, other)
        },
{
    assert(metadata.push((key, value)).drop_last() =~= metadata);
}

/// A reply is one thing only, and carries what it was given: an address, a
/// message and its kind, or a message.
pub proof fn law_replies<P>(r: Reply<P>, url: Seq<char>, message: Seq<char>, kind: FlashKind)
    ensures
        r.redirects(url) <==> (r matches Reply::Redirect(u) && u@ == url),
        r.flashes(url, message, kind) <==> (r matches Reply::RedirectFlash {
            url: u,
            message: m,
            kind: k,
        } && u@ == url && m@ == message && k == kind),
        r.signs_out(url) <==> (r matches Reply::SignOut(u) && u@ == url),
        r.toasts(message, kind) <==> (r matches Reply::Toast { message: m, kind: k } && m@
            == message && k == kind),
        r.not_found(message) <==> (r matches Reply::NotFound(m) && m@ == message),
        r.not_found_authed(message) <==> (r matches Reply::NotFoundAuthed(m) && m@ == message),
        r.bad_request(message) <==> (r matches Reply::BadRequest(m) && m@ == message),
{
}

/// The two kinds of message go by different names, each read back from a query.
pub proof fn law_flash_kinds(kind: FlashKind)
    ensures
        asked_kind(Some(kind.name())) == kind,
        asked_kind(None) == FlashKind::Success,
        FlashKind::Success.name() != FlashKind::Error.name(),
        FlashKind::Error.name() == "error"@,
        FlashKind::Success.name() == "success"@,
{
    reveal_strlit("success");
    reveal_strlit("error");
    assert("success"@.len() == 7 && "error"@.len() == 5);
}

/// What a page frame shows of the installation and of the person signed in.
pub proof fn law_chrome(
    c: Chrome,
    site: Site,
    session: UiSession,
    active: Seq<char>,
    is_admin: bool,
    narrow: bool,
)
    requires
        c.is_for(site, session, active, is_admin, narrow),
    ensures
        c.chrome,
        c.active@ == active,
        c.user_email matches Some(email) && email@ == session.user_email@,
        c.is_admin == is_admin,
        c.narrow == narrow,
        text::opt_text(c.csrf) == text::opt_text(session.csrf),
        c.product_name@ == site.product_name@,
        c.logo_url@ == site.logo_url@,
        c.theme_css@ == site.theme_css@,
        text::opt_text(c.realm_theme_css) == text::opt_text(site.realm_theme_css),
{
}

/// Pages of the administration are wide and show its menu; pages of the own
/// account are narrow.
pub proof fn law_page_kinds(c: Chrome, site: Site, session: UiSession, active: Seq<char>, adm: bool)
    ensures
        c.is_admin_page(site, session, active) ==> c.is_admin && !c.narrow && c.active@ == active,
        c.is_account_page(site, session, active, adm) ==> c.is_admin == adm && c.narrow
            && c.active@ == active,
{
}

/// A request that names one thing is refused without its token, and otherwise
/// goes on with exactly the identifier that was named, or finds nothing.
pub proof fn law_names_one<P>(
    r: Result<u128, Reply<P>>,
    csrf_ok: bool,
    raw: Seq<char>,
    missing: Seq<char>,
)
    requires
        names_one(r, csrf_ok, raw, missing),
    ensures
        !csrf_ok ==> (r matches Err(e) && e is Forbidden),
        r matches Ok(id) ==> csrf_ok && codec::uuid_of(raw) == Some(id),
        csrf_ok && codec::uuid_of(raw) is None ==> (r matches Err(Reply::NotFound(m)) && m@
            == missing),
        csrf_ok && codec::uuid_of(raw) is Some ==> r is Ok,
{
}

/// A request that names two things goes on with both in the order in which they
/// were named, and tells of the first one that names nothing.
pub proof fn law_names_two<P>(
    r: Result<(u128, u128), Reply<P>>,
    csrf_ok: bool,
    first: Seq<char>,
    no_first: Seq<char>,
    second: Seq<char>,
    no_second: Seq<char>,
)
    requires
        names_two(r, csrf_ok, first, no_first, second, no_second),
    ensures
        !csrf_ok ==> (r matches Err(e) && e is Forbidden),
        r matches Ok(ids) ==> csrf_ok && codec::uuid_of(first) == Some(ids.0) && codec::uuid_of(
            second,
        ) == Some(ids.1),
        csrf_ok && codec::uuid_of(first) is None ==> (r matches Err(Reply::NotFound(m)) && m@
            == no_first),
        csrf_ok && codec::uuid_of(first) is Some && codec::uuid_of(second) is None ==> (r matches Err(
            Reply::NotFound(m),
        ) && m@ == no_second),
        csrf_ok && codec::uuid_of(first) is Some && codec::uuid_of(second) is Some ==> r is Ok,
{
}

/// The message and its kind stand in the header as they are, but for the quotes
/// in the message, which are escaped.
pub proof fn law_toast(message: Seq<char>, kind: FlashKind)
    ensures
        toast_json(message, kind) == "{\"showToast\":{\"message\":\""@ + text::replaced(
            message,
            '"',
            "\\\""@,
        ) + "\",\"kind\":\""@ + kind.name() + "\"}}"@,
        !message.contains('"') ==> toast_json(message, kind)
            == "{\"showToast\":{\"message\":\""@ + message + "\",\"kind\":\""@ + kind.name()
            + "\"}}"@,
{
    reveal_strlit("success");
    reveal_strlit("error");
    assert(!kind.name().contains('"'));
    text::law_replaced(kind.name(), '"', Seq::empty(), "\\\""@);
    if !message.contains('"') {
        text::law_replaced(message, '"', Seq::empty(), "\\\""@);
    }
}

/// Whatever is recorded, it is recorded of the person signed in, in the realm and
/// of the thing that it is about.
pub proof fn law_ui_event(
    session: UiSession,
    realm_id: u128,
    action: AuditAction,
    resource_type: Seq<char>,
    resource_id: Seq<char>,
    metadata: Seq<(Seq<char>, MetaView)>,
)
    ensures
        ({
            let e = ui_event(session, realm_id, action, resource_type, resource_id, metadata);
            &&& e.realm_id == realm_id
            &&& e.actor == codec::hyphenated(session.user_id)
            &&& e.action == action
            &&& e.resource_type == resource_type
            &&& e.resource_id == resource_id
            &&& e.metadata == metadata
        }),
        told(via_ui(), "via"@) == Some(MetaView::Text("ui"@)),
        via_ui().len() == 1,
{
}

/// What is seen of a recorded event, and of a log, is what was recorded.
pub proof fn law_event_view<P>(e: AuditEvent, o: Outcome<P>)
    ensures
        e@.realm_id == e.realm_id,
        e@.actor == e.actor@,
        e@.action == e.action,
        e@.resource_type == e.resource_type@,
        e@.resource_id == e.resource_id@,
        e@.metadata.len() == e.metadata@.len(),
        forall|i: int|
            0 <= i < e.metadata@.len() ==> (#[trigger] e@.metadata[i]).0 == e.metadata@[i].0@
                && e@.metadata[i].1 == e.metadata@[i].1@,
        o.log().len() == o.events@.len(),
        forall|i: int| 0 <= i < o.events@.len() ==> #[trigger] o.log()[i] == o.events@[i]@,
        o.is_silent() <==> o.events@.len() == 0,
{
}

/// Whether a text can stand as one step of a path.
pub open spec fn is_step(s: Seq<char>) -> bool {
    !s.contains('/') && !s.contains('?') && !s.contains('&')
}

proof fn lemma_id_is_step(id: u128)
    ensures
        is_step(codec::hyphenated(id)),
{
    codec::law_hyphenated(id);
}

proof fn lemma_steps(steps: Seq<Seq<char>>, path: Seq<char>)
    requires
        steps.len() > 0,
        forall|k: int| 0 <= k < steps.len() ==> is_step(#[trigger] steps[k]),
        path == text::joined(steps, seq!['/']),
    ensures
        text::split_pieces(path, text::Separator::Char('/')) == steps,
{
    assert forall|k: int, i: int|
        0 <= k < steps.len() && 0 <= i < steps[k].len() implies !text::separates(
        text::Separator::Char('/'),
        #[trigger] steps[k][i],
    ) by {
        assert(is_step(steps[k]));
        assert(steps[k].contains(steps[k][i]));
    }
    text::lemma_split_joined(steps, '/', text::Separator::Char('/'));
}

/// In the nested layout the steps of an address name the realm, the section and,
/// where it leads to one, the thing.
pub proof fn law_nested_address(target: TargetRealm, section: Seq<char>, id: u128)
    requires
        target.routes is Nested,
        is_step(target.name@),
        is_step(section),
    ensures
        text::split_pieces(list_address(target, section), text::Separator::Char('/')) == seq![
            Seq::<char>::empty(),
            "ui"@,
            "admin"@,
            "realms"@,
            target.name@,
            section,
        ],
        text::split_pieces(item_address(target, section, id), text::Separator::Char('/')) == seq![
            Seq::<char>::empty(),
            "ui"@,
            "admin"@,
            "realms"@,
            target.name@,
            section,
            codec::hyphenated(id),
        ],
{
    reveal_strlit("/ui/admin/realms/");
    reveal_strlit("/");
    reveal_strlit("ui");
    reveal_strlit("admin");
    reveal_strlit("realms");
    let none = Seq::<char>::empty();
    let list = seq![none, "ui"@, "admin"@, "realms"@, target.name@, section];
    let item = list.push(codec::hyphenated(id));
    lemma_id_is_step(id);
    reveal_with_fuel(text::joined, 8);
    let l1 = list.drop_last();
    let l2 = l1.drop_last();
    let l3 = l2.drop_last();
    let l4 = l3.drop_last();
    assert(l4.drop_last() =~= seq![none]);
    assert(text::joined(l3, seq!['/']) =~= none + seq!['/'] + "ui"@ + seq!['/'] + "admin"@);
    assert(text::joined(list, seq!['/']) =~= list_address(target, section));
    assert(item.drop_last() =~= list);
    assert(text::joined(item, seq!['/']) =~= item_address(target, section, id));
    lemma_steps(list, list_address(target, section));
    lemma_steps(item, item_address(target, section, id));
    assert(item =~= seq![
        none,
        "ui"@,
        "admin"@,
        "realms"@,
        target.name@,
        section,
        codec::hyphenated(id),
    ]);
}

/// In the flat layout an address names the section, and the thing where it leads
/// to one, in its path, and the realm in its query.
pub proof fn law_flat_address(target: TargetRealm, section: Seq<char>, id: u128)
    requires
        target.routes is Flat,
        is_step(section),
    ensures
        query::query_of(list_address(target, section)) == Some("realm="@ + target.name@),
        text::has_prefix(list_address(target, section), "/ui/admin/"@ + section + "?"@),
        query::query_of(item_address(target, section, id)) == Some("realm="@ + target.name@),
        text::has_prefix(
            item_address(target, section, id),
            "/ui/admin/"@ + section + "/"@ + codec::hyphenated(id) + "?"@,
        ),
        !target.name@.contains('&') ==> query::value_after(
            query::params_of("realm="@ + target.name@),
            "realm="@,
        ) == Some(target.name@),
{
    reveal_strlit("/ui/admin/");
    reveal_strlit("/");
    reveal_strlit("?");
    reveal_strlit("?realm=");
    reveal_strlit("realm=");
    lemma_id_is_step(id);
    let q = "realm="@ + target.name@;
    let list = "/ui/admin/"@ + section;
    let item = list + "/"@ + codec::hyphenated(id);
    assert(!list.contains('?')) by {
        if list.contains('?') {
            let i = choose|i: int| 0 <= i < list.len() && list[i] == '?';
            assert(i >= 10);
            assert(section[i - 10] == '?');
        }
    }
    assert(!item.contains('?')) by {
        if item.contains('?') {
            let i = choose|i: int| 0 <= i < item.len() && item[i] == '?';
            if i < list.len() {
                assert(list[i] == '?');
            } else {
                assert(i > list.len());
                assert(codec::hyphenated(id)[i - list.len() - 1] == '?');
            }
        }
    }
    assert(list_address(target, section) =~= list + seq!['?'] + q);
    assert(item_address(target, section, id) =~= item + seq!['?'] + q);
    query::lemma_query_of(list, q);
    query::lemma_query_of(item, q);
    assert(list_address(target, section).subrange(0, (list + "?"@).len() as int) =~= list + "?"@);
    assert(item_address(target, section, id).subrange(0, (item + "?"@).len() as int) =~= item
        + "?"@);
    if !target.name@.contains('&') {
        query::law_value_round_trip("realm="@, target.name@);
    }
}

/// One for each, in order: the events of a list.
pub proof fn law_events_of(v: Seq<AuditEvent>, i: int)
    ensures
        events_of(v).len() == v.len(),
        0 <= i < v.len() ==> events_of(v)[i] == v[i]@,
{
}

/// A message says what it says, in its own kind.
pub proof fn law_says(f: Flash, kind: FlashKind, message: Seq<char>)
    ensures
        f.says(kind, message) <==> f.kind == kind && f.message@ == message,
{
}

} // verus!
