//! OAuth clients: lists, the application page, registration, editing and
//! deletion.

use crate::access;
use crate::audit;
use crate::codec;
use crate::order;
use crate::sessions;
use crate::text;
use crate::web;
use vstd::prelude::*;
use vstd::string::*;

verus! {

// ---------------------------------------------------------------------------
// The model
// ---------------------------------------------------------------------------

/// Whether a client belongs to the installation itself.
#[derive(Clone, Copy, PartialEq, Eq, Structural)]
pub enum ClientTrustLevel {
    FirstParty,
    ThirdParty,
}

impl ClientTrustLevel {
    /// The name of a level in forms.
    pub open spec fn name(self) -> Seq<char> {
        match self {
            ClientTrustLevel::FirstParty => "first_party"@,
            ClientTrustLevel::ThirdParty => "third_party"@,
        }
    }

    /// The name of a level in forms.
    pub fn label(self) -> (r: String)
        ensures
            r@ == self.name(),
    {
        match self {
            ClientTrustLevel::FirstParty => "first_party".to_owned(),
            ClientTrustLevel::ThirdParty => "third_party".to_owned(),
        }
    }
}

/// The level that a form field names; what it does not name is a third party.
pub open spec fn trust_of(s: Seq<char>) -> ClientTrustLevel {
    if s == "first_party"@ {
        ClientTrustLevel::FirstParty
    } else {
        ClientTrustLevel::ThirdParty
    }
}

fn parse_trust(s: &str) -> (r: ClientTrustLevel)
    ensures
        r == trust_of(s@),
{
    if text::same(s, "first_party") {
        ClientTrustLevel::FirstParty
    } else {
        ClientTrustLevel::ThirdParty
    }
}

/// A level is read back from its name.
pub proof fn law_trust_round_trip(level: ClientTrustLevel)
    ensures
        trust_of(level.name()) == level,
{
    reveal_strlit("first_party");
    reveal_strlit("third_party");
    assert("first_party"@[0] == 'f' && "third_party"@[0] == 't');
}

/// An OAuth client as the engine knows it.
pub struct OAuthClient {
    pub id: u128,
    pub client_name: String,
    pub slug: String,
    pub redirect_uris: Vec<String>,
    pub grant_types: Vec<String>,
    pub trust_level: ClientTrustLevel,
    pub require_consent: bool,
    pub declared_scopes: Vec<String>,
    pub client_logo_url: Option<String>,
}

// ---------------------------------------------------------------------------
// The list and the application page
// ---------------------------------------------------------------------------

/// The list of the applications of a realm.
pub struct AppListTemplate {
    pub applications: Vec<OAuthClient>,
    pub next_cursor: Option<String>,
    pub realm_name: String,
    pub realm_id_hex: String,
    pub active_tab: String,
    pub chrome: web::Chrome,
}

/// Shows the applications of a realm.
pub fn admin_apps_list(
    site: &web::Site,
    session: &web::UiSession,
    target: &web::TargetRealm,
    listed: Result<sessions::Page<OAuthClient>, web::EngineError>,
) -> (r: web::Reply<AppListTemplate>)
    ensures
        listed is Err ==> r is ServerError,
        listed matches Ok(page) ==> r is Page && {
            let p = r->Page_0;
            &&& p.applications == page.items
            &&& p.next_cursor == page.next_cursor
            &&& p.realm_name@ == target.name@
            &&& p.realm_id_hex@ == codec::hyphenated(target.id)
            &&& p.active_tab@ == "applications"@
            &&& p.chrome.is_admin_page(*site, *session, "realm-workspace"@)
            &&& p.chrome.flash is None
        },
{
    match listed {
        Err(_) => web::Reply::ServerError,
        Ok(page) => web::Reply::Page(
            AppListTemplate {
                applications: page.items,
                next_cursor: page.next_cursor,
                realm_name: target.name.clone(),
                realm_id_hex: codec::uuid_text(target.id),
                active_tab: "applications".to_owned(),
                chrome: web::Chrome::admin(site, session, "realm-workspace"),
            },
        ),
    }
}

/// The application page.
pub struct AppDetailTemplate {
    pub app: OAuthClient,
    pub realm_name: String,
    /// The secret, shown once after it was made.
    pub client_secret: Option<String>,
    pub chrome: web::Chrome,
}

impl AppDetailTemplate {
    /// Whether the page shows an application and, where there is one, its new
    /// secret.
    pub open spec fn shows(
        self,
        site: web::Site,
        session: web::UiSession,
        target: web::TargetRealm,
        app: OAuthClient,
        secret: Option<String>,
    ) -> bool {
        &&& self.app == app
        &&& self.realm_name@ == target.name@
        &&& self.client_secret == secret
        &&& self.chrome.is_admin_page(site, session, "applications"@)
        &&& self.chrome.flash is None
    }
}

fn app_page(
    site: &web::Site,
    session: &web::UiSession,
    target: &web::TargetRealm,
    app: OAuthClient,
    client_secret: Option<String>,
) -> (r: AppDetailTemplate)
    ensures
        r.shows(*site, *session, *target, app, client_secret),
{
    AppDetailTemplate {
        app,
        realm_name: target.name.clone(),
        client_secret,
        chrome: web::Chrome::admin(site, session, "applications"),
    }
}

/// Reads which application a page is about.
pub fn app_request(cid: &str) -> (r: Result<u128, web::Reply<()>>)
    ensures
        web::names_one(r, true, cid@, "Application not found"@),
{
    web::require_one(true, cid, "Application not found")
}

/// Shows an application, without its secret.
pub fn admin_app_detail(
    site: &web::Site,
    session: &web::UiSession,
    target: &web::TargetRealm,
    found: Result<Option<OAuthClient>, web::EngineError>,
) -> (r: web::Reply<AppDetailTemplate>)
    ensures
        match found {
            Err(_) => r is ServerError,
            Ok(None) => r.not_found("Application not found"@),
            Ok(Some(app)) => r is Page && r->Page_0.shows(*site, *session, *target, app, None),
        },
{
    match found {
        Err(_) => web::Reply::ServerError,
        Ok(None) => web::Reply::missing("Application not found"),
        Ok(Some(app)) => web::Reply::Page(app_page(site, session, target, app, None)),
    }
}

/// The event of an operation on an application.
pub open spec fn app_event(
    session: web::UiSession,
    realm_id: u128,
    action: web::AuditAction,
    client_id: u128,
) -> web::AuditEventView {
    web::ui_event(
        session,
        realm_id,
        action,
        "client"@,
        codec::hyphenated(client_id),
        web::via_ui(),
    )
}

proof fn lemma_app_operations()
    ensures
        "update"@ != "create"@,
        "delete"@ != "create"@,
        "delete"@ != "update"@,
{
    reveal_strlit("create");
    reveal_strlit("update");
    reveal_strlit("delete");
    assert("create"@[0] == 'c' && "update"@[0] == 'u' && "delete"@[0] == 'd');
}

/// The address of an application's page.
pub open spec fn app_address(target: web::TargetRealm, client_id: u128) -> Seq<char> {
    match target.routes {
        web::Routes::Flat => "/ui/admin/applications/"@ + codec::hyphenated(client_id),
        web::Routes::Nested => web::item_address(target, "applications"@, client_id),
    }
}

fn app_url(target: &web::TargetRealm, client_id: u128) -> (r: String)
    ensures
        r@ == app_address(*target, client_id),
{
    match target.routes {
        web::Routes::Flat => "/ui/admin/applications/".to_owned().concat(
            codec::uuid_text(client_id).as_str(),
        ),
        web::Routes::Nested => web::item_url(target, "applications", client_id),
    }
}

/// Reads which application an action is about.
pub fn app_action_request(csrf_ok: bool, cid: &str) -> (r: Result<u128, web::Reply<()>>)
    ensures
        web::names_one(r, csrf_ok, cid@, "Application not found"@),
{
    web::require_one(csrf_ok, cid, "Application not found")
}

/// Answers after the engine tried to make a new secret: shows it once on the
/// application page. `found` is the application, read again.
pub fn admin_app_regenerate_secret(
    site: &web::Site,
    session: &web::UiSession,
    target: &web::TargetRealm,
    client_id: u128,
    regenerated: Result<String, web::EngineError>,
    found: Option<OAuthClient>,
) -> (r: web::Outcome<AppDetailTemplate>)
    ensures
        match regenerated {
            Ok(secret) => {
                &&& r.log() == seq![
                    app_event(*session, target.id, web::AuditAction::ClientUpdated, client_id),
                ]
                &&& match found {
                    Some(app) => r.reply is Page && r.reply->Page_0.shows(
                        *site,
                        *session,
                        *target,
                        app,
                        Some(secret),
                    ),
                    None => r.reply.redirects(app_address(*target, client_id)),
                }
            },
            Err(e) => r.is_silent() && match e.kind {
                web::ErrorKind::InvalidClient => r.reply.not_found("Application not found"@),
                web::ErrorKind::InvalidInput(_) => r.reply.not_found(
                    "Cannot regenerate secret for a public client"@,
                ),
                _ => r.reply is ServerError,
            },
        },
{
    match regenerated {
        Ok(secret) => {
            let event = audit::audit_app_event(session, target.id, client_id, "update");
            proof {
                lemma_app_operations();
            }
            let reply = match found {
                Some(app) => web::Reply::Page(
                    app_page(site, session, target, app, Some(secret)),
                ),
                None => web::Reply::Redirect(app_url(target, client_id)),
            };
            web::Outcome::noted(reply, event)
        },
        Err(e) => web::Outcome::silent(
            match e.kind {
                web::ErrorKind::InvalidClient => web::Reply::missing("Application not found"),
                web::ErrorKind::InvalidInput(_) => web::Reply::missing(
                    "Cannot regenerate secret for a public client",
                ),
                _ => web::Reply::ServerError,
            },
        ),
    }
}

// ---------------------------------------------------------------------------
// Forms
// ---------------------------------------------------------------------------

/// The fields of an application form as the page shows them.
pub struct AppFields {
    pub client_name: String,
    pub slug: String,
    pub client_type: String,
    /// One address on each line.
    pub redirect_uris: String,
    pub grant_authorization_code: bool,
    pub grant_client_credentials: bool,
    pub grant_refresh_token: bool,
    pub grant_device_code: bool,
    pub trust_level: String,
    pub require_consent: bool,
    /// Scopes separated by white space.
    pub declared_scopes: String,
    pub client_logo_url: String,
}

/// The fields of an application form without their representation.
#[verifier::ext_equal]
pub struct AppFieldsView {
    pub client_name: Seq<char>,
    pub slug: Seq<char>,
    pub client_type: Seq<char>,
    pub redirect_uris: Seq<char>,
    pub grant_authorization_code: bool,
    pub grant_client_credentials: bool,
    pub grant_refresh_token: bool,
    pub grant_device_code: bool,
    pub trust_level: Seq<char>,
    pub require_consent: bool,
    pub declared_scopes: Seq<char>,
    pub client_logo_url: Seq<char>,
}

impl View for AppFields {
    type V = AppFieldsView;

    open spec fn view(&self) -> AppFieldsView {
        AppFieldsView {
            client_name: self.client_name@,
            slug: self.slug@,
            client_type: self.client_type@,
            redirect_uris: self.redirect_uris@,
            grant_authorization_code: self.grant_authorization_code,
            grant_client_credentials: self.grant_client_credentials,
            grant_refresh_token: self.grant_refresh_token,
            grant_device_code: self.grant_device_code,
            trust_level: self.trust_level@,
            require_consent: self.require_consent,
            declared_scopes: self.declared_scopes@,
            client_logo_url: self.client_logo_url@,
        }
    }
}

/// The fields of the empty form: a public third-party client with the
/// authorization code grant, whose users are asked for consent.
pub open spec fn blank_fields() -> AppFieldsView {
    AppFieldsView {
        client_name: Seq::empty(),
        slug: Seq::empty(),
        client_type: "public"@,
        redirect_uris: Seq::empty(),
        grant_authorization_code: true,
        grant_client_credentials: false,
        grant_refresh_token: false,
        grant_device_code: false,
        trust_level: "third_party"@,
        require_consent: true,
        declared_scopes: Seq::empty(),
        client_logo_url: Seq::empty(),
    }
}

/// Whether a checkbox is checked.
pub open spec fn checked(value: Seq<char>) -> bool {
    value == "1"@
}

fn is_checked(value: &str) -> (r: bool)
    ensures
        r == checked(value@),
{
    text::same(value, "1")
}

/// The grant types that checkboxes select; without any, that of the
/// authorization code.
pub open spec fn grants_of(code: bool, credentials: bool, refresh: bool, device: bool) -> Seq<
    Seq<char>,
> {
    if !code && !credentials && !refresh && !device {
        seq!["authorization_code"@]
    } else {
        let a = if code {
            seq!["authorization_code"@]
        } else {
            Seq::empty()
        };
        let b = if credentials {
            a.push("client_credentials"@)
        } else {
            a
        };
        let c = if refresh {
            b.push("refresh_token"@)
        } else {
            b
        };
        if device {
            c.push("urn:ietf:params:oauth:grant-type:device_code"@)
        } else {
            c
        }
    }
}

/// Lists the grant types that checkboxes select.
pub fn select_grants(code: bool, credentials: bool, refresh: bool, device: bool) -> (r: Vec<String>)
    ensures
        text::texts(r@) == grants_of(code, credentials, refresh, device),
{
    let mut r: Vec<String> = Vec::new();
    if code {
        r.push("authorization_code".to_owned());
    }
    if credentials {
        r.push("client_credentials".to_owned());
    }
    if refresh {
        r.push("refresh_token".to_owned());
    }
    if device {
        r.push("urn:ietf:params:oauth:grant-type:device_code".to_owned());
    }
    if r.len() == 0 {
        r.push("authorization_code".to_owned());
    }
    proof {
        assert(text::texts(r@) =~= grants_of(code, credentials, refresh, device));
    }
    r
}

/// A text, where there is any.
pub open spec fn given(s: Seq<char>) -> Option<Seq<char>> {
    if s.len() == 0 {
        None
    } else {
        Some(s)
    }
}

/// Takes a text, where there is any.
pub fn take_given(s: &str) -> (r: Option<String>)
    ensures
        text::opt_text(r) == given(s@),
{
    if s.is_empty() {
        None
    } else {
        Some(s.to_owned())
    }
}

// ---------------------------------------------------------------------------
// Registration
// ---------------------------------------------------------------------------

/// The page that registers an application.
pub struct AppNewTemplate {
    pub error: Option<String>,
    pub realm_name: String,
    pub form: AppFields,
    pub active_tab: String,
    pub chrome: web::Chrome,
}

impl AppNewTemplate {
    /// Whether the page shows a form and an error.
    pub open spec fn shows(
        self,
        site: web::Site,
        session: web::UiSession,
        realm_name: Seq<char>,
        form: AppFieldsView,
        error: Option<Seq<char>>,
    ) -> bool {
        &&& text::opt_text(self.error) == error
        &&& self.realm_name@ == realm_name
        &&& self.form@ == form
        &&& self.active_tab@ == "applications"@
        &&& self.chrome.is_admin_page(site, session, "realm-workspace"@)
        &&& self.chrome.flash is None
    }

    /// The page with the empty form.
    pub fn blank(realm_name: &str, session: &web::UiSession, site: &web::Site) -> (r:
        AppNewTemplate)
        ensures
            r.shows(*site, *session, realm_name@, blank_fields(), None),
    {
        AppNewTemplate {
            error: None,
            realm_name: realm_name.to_owned(),
            form: AppFields {
                client_name: String::new(),
                slug: String::new(),
                client_type: "public".to_owned(),
                redirect_uris: String::new(),
                grant_authorization_code: true,
                grant_client_credentials: false,
                grant_refresh_token: false,
                grant_device_code: false,
                trust_level: "third_party".to_owned(),
                require_consent: true,
                declared_scopes: String::new(),
                client_logo_url: String::new(),
            },
            active_tab: "applications".to_owned(),
            chrome: web::Chrome::admin(site, session, "realm-workspace"),
        }
    }
}

/// Shows the empty form.
pub fn admin_app_create_form(
    site: &web::Site,
    session: &web::UiSession,
    target: &web::TargetRealm,
) -> (r: web::Reply<AppNewTemplate>)
    ensures
        r is Page && r->Page_0.shows(*site, *session, target.name@, blank_fields(), None),
{
    web::Reply::Page(AppNewTemplate::blank(target.name.as_str(), session, site))
}

/// The form that registers an application.
pub struct AppCreateForm {
    pub client_name: String,
    pub slug: String,
    pub client_type: String,
    pub redirect_uris: String,
    pub grant_authorization_code: String,
    pub grant_client_credentials: String,
    pub grant_refresh_token: String,
    pub grant_device_code: String,
    pub trust_level: String,
    pub require_consent: String,
    pub declared_scopes: String,
    pub client_logo_url: String,
    pub csrf: String,
}

/// What the engine is asked to register.
pub struct RegisterClientRequest {
    pub client_name: String,
    pub redirect_uris: Vec<String>,
    pub client_secret: Option<String>,
    pub grant_types: Vec<String>,
    pub require_consent: bool,
    pub client_logo_url: Option<String>,
    pub slug: Option<String>,
    pub trust_level: ClientTrustLevel,
    pub declared_scopes: Vec<String>,
    pub consent_spans_orgs: bool,
}

/// Whether a request registers what the form says, besides the secret.
pub open spec fn registers(q: RegisterClientRequest, form: AppCreateForm) -> bool {
    &&& q.client_name@ == form.client_name@
    &&& text::texts(q.redirect_uris@) == text::filled_lines(form.redirect_uris@)
    &&& text::texts(q.grant_types@) == grants_of(
        checked(form.grant_authorization_code@),
        checked(form.grant_client_credentials@),
        checked(form.grant_refresh_token@),
        checked(form.grant_device_code@),
    )
    &&& q.require_consent == checked(form.require_consent@)
    &&& text::opt_text(q.client_logo_url) == given(form.client_logo_url@)
    &&& text::opt_text(q.slug) == given(form.slug@)
    &&& q.trust_level == trust_of(form.trust_level@)
    &&& text::texts(q.declared_scopes@) == text::words_of(form.declared_scopes@)
    &&& !q.consent_spans_orgs
}

/// Reads a registration from the form; `fresh` becomes the secret of a
/// confidential client.
pub fn registration(form: &AppCreateForm, fresh: u128) -> (r: RegisterClientRequest)
    ensures
        registers(r, *form),
        text::opt_text(r.client_secret) == if form.client_type@ == "confidential"@ {
            Some(codec::hyphenated(fresh))
        } else {
            None
        },
{
    let client_secret = if text::same(form.client_type.as_str(), "confidential") {
        Some(codec::uuid_text(fresh))
    } else {
        None
    };
    RegisterClientRequest {
        client_name: form.client_name.clone(),
        redirect_uris: text::read_lines(form.redirect_uris.as_str()),
        client_secret,
        grant_types: select_grants(
            is_checked(form.grant_authorization_code.as_str()),
            is_checked(form.grant_client_credentials.as_str()),
            is_checked(form.grant_refresh_token.as_str()),
            is_checked(form.grant_device_code.as_str()),
        ),
        require_consent: is_checked(form.require_consent.as_str()),
        client_logo_url: take_given(form.client_logo_url.as_str()),
        slug: take_given(form.slug.as_str()),
        trust_level: parse_trust(form.trust_level.as_str()),
        declared_scopes: text::split_whitespace(form.declared_scopes.as_str()),
        consent_spans_orgs: false,
    }
}

/// Whether a text is a random UUID.
pub open spec fn is_random_uuid(s: Seq<char>) -> bool {
    exists|id: u128|
        s == #[trigger] codec::hyphenated(id) && (id >> 76) & 0xf == 4 && (id >> 62) & 0x3 == 2
}

/// Reads a registration from the form. A confidential client gets a random
/// UUID as its secret, a public one none.
pub fn parse_app_create_form(form: &AppCreateForm) -> (r: RegisterClientRequest)
    ensures
        registers(r, *form),
        r.client_secret is Some <==> form.client_type@ == "confidential"@,
        r.client_secret is Some ==> is_random_uuid((r.client_secret->0)@),
{
    if text::same(form.client_type.as_str(), "confidential") {
        registration(form, codec::random_uuid())
    } else {
        registration(form, 0)
    }
}

/// Reads what to register: refused without the CSRF token.
pub fn admin_app_create_submit_request(csrf_ok: bool, form: &AppCreateForm) -> (r: Result<
    RegisterClientRequest,
    web::Reply<AppNewTemplate>,
>)
    ensures
        !csrf_ok ==> r is Err && r->Err_0 is Forbidden,
        csrf_ok ==> r is Ok && {
            let q = r->Ok_0;
            &&& registers(q, *form)
            &&& q.client_secret is Some <==> form.client_type@ == "confidential"@
            &&& q.client_secret is Some ==> is_random_uuid((q.client_secret->0)@)
        },
{
    if csrf_ok {
        Ok(parse_app_create_form(form))
    } else {
        Err(web::Reply::Forbidden)
    }
}

/// The form as it was submitted.
pub open spec fn submitted_fields(form: AppCreateForm) -> AppFieldsView {
    AppFieldsView {
        client_name: form.client_name@,
        slug: form.slug@,
        client_type: form.client_type@,
        redirect_uris: form.redirect_uris@,
        grant_authorization_code: checked(form.grant_authorization_code@),
        grant_client_credentials: checked(form.grant_client_credentials@),
        grant_refresh_token: checked(form.grant_refresh_token@),
        grant_device_code: checked(form.grant_device_code@),
        trust_level: form.trust_level@,
        require_consent: checked(form.require_consent@),
        declared_scopes: form.declared_scopes@,
        client_logo_url: form.client_logo_url@,
    }
}

/// Answers after the engine tried to register an application. `has_secret`
/// tells whether it got a secret.
pub fn admin_app_create_submit(
    site: &web::Site,
    session: &web::UiSession,
    target: &web::TargetRealm,
    form: &AppCreateForm,
    has_secret: bool,
    registered: Result<u128, web::EngineError>,
) -> (r: web::Outcome<AppNewTemplate>)
    ensures
        match registered {
            Ok(id) => {
                &&& r.log() == seq![
                    app_event(*session, target.id, web::AuditAction::ClientRegistered, id),
                ]
                &&& r.reply.redirects(
                    "/ui/admin/realms/"@ + target.name@ + "/applications/"@ + codec::hyphenated(id)
                        + if has_secret {
                        "?secret_shown=1"@
                    } else {
                        Seq::empty()
                    },
                )
            },
            Err(e) => r.is_silent() && r.reply is Page && match e.kind {
                web::ErrorKind::InvalidInput(reason) => r.reply->Page_0.shows(
                    *site,
                    *session,
                    target.name@,
                    submitted_fields(*form),
                    Some(reason@),
                ),
                _ => r.reply->Page_0.shows(
                    *site,
                    *session,
                    target.name@,
                    blank_fields(),
                    Some("Unable to register application right now."@),
                ),
            },
        },
{
    match registered {
        Ok(id) => {
            let event = audit::audit_app_event(session, target.id, id, "create");
            let suffix = if has_secret {
                "?secret_shown=1".to_owned()
            } else {
                String::new()
            };
            let url = "/ui/admin/realms/".to_owned().concat(target.name.as_str()).concat(
                "/applications/",
            ).concat(codec::uuid_text(id).as_str()).concat(suffix.as_str());
            web::Outcome::noted(web::Reply::Redirect(url), event)
        },
        Err(e) => {
            let mut page = AppNewTemplate::blank(target.name.as_str(), session, site);
            match e.kind {
                web::ErrorKind::InvalidInput(reason) => {
                    page.error = Some(reason);
                    page.form =
                    AppFields {
                        client_name: form.client_name.clone(),
                        slug: form.slug.clone(),
                        client_type: form.client_type.clone(),
                        redirect_uris: form.redirect_uris.clone(),
                        grant_authorization_code: is_checked(
                            form.grant_authorization_code.as_str(),
                        ),
                        grant_client_credentials: is_checked(
                            form.grant_client_credentials.as_str(),
                        ),
                        grant_refresh_token: is_checked(form.grant_refresh_token.as_str()),
                        grant_device_code: is_checked(form.grant_device_code.as_str()),
                        trust_level: form.trust_level.clone(),
                        require_consent: is_checked(form.require_consent.as_str()),
                        declared_scopes: form.declared_scopes.clone(),
                        client_logo_url: form.client_logo_url.clone(),
                    };
                },
                _ => {
                    page.error = Some("Unable to register application right now.".to_owned());
                },
            }
            web::Outcome::silent(web::Reply::Page(page))
        },
    }
}

// ---------------------------------------------------------------------------
// Editing
// ---------------------------------------------------------------------------

/// The page that edits an application.
pub struct AppEditTemplate {
    pub app: OAuthClient,
    pub error: Option<String>,
    pub realm_name: String,
    pub form: AppFields,
    pub active_tab: String,
    pub chrome: web::Chrome,
}

/// The form that shows what an application is, under the name `name`.
pub open spec fn client_fields(app: OAuthClient, name: Seq<char>) -> AppFieldsView {
    let grants = text::texts(app.grant_types@);
    AppFieldsView {
        client_name: name,
        slug: app.slug@,
        client_type: Seq::empty(),
        redirect_uris: text::joined(text::texts(app.redirect_uris@), "\n"@),
        grant_authorization_code: grants.contains("authorization_code"@),
        grant_client_credentials: grants.contains("client_credentials"@),
        grant_refresh_token: grants.contains("refresh_token"@),
        grant_device_code: grants.contains("urn:ietf:params:oauth:grant-type:device_code"@),
        trust_level: app.trust_level.name(),
        require_consent: app.require_consent,
        declared_scopes: text::joined(text::texts(app.declared_scopes@), " "@),
        client_logo_url: access::text_or_empty(app.client_logo_url),
    }
}

impl AppEditTemplate {
    /// Whether the page shows an application under a name, and an error.
    pub open spec fn shows(
        self,
        site: web::Site,
        session: web::UiSession,
        realm_name: Seq<char>,
        app: OAuthClient,
        name: Seq<char>,
        error: Option<Seq<char>>,
    ) -> bool {
        &&& self.app == app
        &&& text::opt_text(self.error) == error
        &&& self.realm_name@ == realm_name
        &&& self.form@ == client_fields(app, name)
        &&& self.active_tab@ == "applications"@
        &&& self.chrome.is_admin_page(site, session, "realm-workspace"@)
        &&& self.chrome.flash is None
    }

    /// The page that shows what an application is; its name is left open.
    pub fn from_client(
        app: OAuthClient,
        realm_name: &str,
        session: &web::UiSession,
        site: &web::Site,
    ) -> (r: AppEditTemplate)
        ensures
            r.shows(*site, *session, realm_name@, app, Seq::empty(), None),
    {
        let form = AppFields {
            client_name: String::new(),
            slug: app.slug.clone(),
            client_type: String::new(),
            redirect_uris: text::join(&app.redirect_uris, "\n"),
            grant_authorization_code: order::contains_text(&app.grant_types, "authorization_code"),
            grant_client_credentials: order::contains_text(&app.grant_types, "client_credentials"),
            grant_refresh_token: order::contains_text(&app.grant_types, "refresh_token"),
            grant_device_code: order::contains_text(
                &app.grant_types,
                "urn:ietf:params:oauth:grant-type:device_code",
            ),
            trust_level: app.trust_level.label(),
            require_consent: app.require_consent,
            declared_scopes: text::join(&app.declared_scopes, " "),
            client_logo_url: access::or_empty(&app.client_logo_url),
        };
        AppEditTemplate {
            app,
            error: None,
            realm_name: realm_name.to_owned(),
            form,
            active_tab: "applications".to_owned(),
            chrome: web::Chrome::admin(site, session, "realm-workspace"),
        }
    }
}

/// Shows the form, filled in with what the application is.
pub fn admin_app_edit_form(
    site: &web::Site,
    session: &web::UiSession,
    target: &web::TargetRealm,
    found: Result<Option<OAuthClient>, web::EngineError>,
) -> (r: web::Reply<AppEditTemplate>)
    ensures
        match found {
            Err(_) => r is ServerError,
            Ok(None) => r.not_found("Application not found"@),
            Ok(Some(app)) => r is Page && r->Page_0.shows(
                *site,
                *session,
                target.name@,
                app,
                app.client_name@,
                None,
            ),
        },
{
    match found {
        Err(_) => web::Reply::ServerError,
        Ok(None) => web::Reply::missing("Application not found"),
        Ok(Some(app)) => {
            let name = app.client_name.clone();
            let mut page = AppEditTemplate::from_client(app, target.name.as_str(), session, site);
            page.form.client_name = name;
            web::Reply::Page(page)
        },
    }
}

/// The form that edits an application.
pub struct AppEditForm {
    pub client_name: String,
    pub slug: String,
    pub redirect_uris: String,
    pub grant_authorization_code: String,
    pub grant_client_credentials: String,
    pub grant_refresh_token: String,
    pub grant_device_code: String,
    pub trust_level: String,
    pub require_consent: String,
    pub declared_scopes: String,
    pub client_logo_url: String,
    pub csrf: String,
}

/// What the engine is asked to change. An absent name or slug stays; an absent
/// logo is taken away; everything that is not here stays.
pub struct UpdateClientRequest {
    pub client_id: u128,
    pub client_name: Option<String>,
    pub redirect_uris: Vec<String>,
    pub grant_types: Vec<String>,
    pub require_consent: bool,
    pub client_logo_url: Option<String>,
    pub slug: Option<String>,
    pub trust_level: ClientTrustLevel,
    pub declared_scopes: Vec<String>,
}

/// Whether a request changes what the form says.
pub open spec fn updates(q: UpdateClientRequest, client_id: u128, form: AppEditForm) -> bool {
    &&& q.client_id == client_id
    &&& text::opt_text(q.client_name) == given(form.client_name@)
    &&& text::texts(q.redirect_uris@) == text::filled_lines(form.redirect_uris@)
    &&& text::texts(q.grant_types@) == grants_of(
        checked(form.grant_authorization_code@),
        checked(form.grant_client_credentials@),
        checked(form.grant_refresh_token@),
        checked(form.grant_device_code@),
    )
    &&& q.require_consent == checked(form.require_consent@)
    &&& text::opt_text(q.client_logo_url) == given(form.client_logo_url@)
    &&& text::opt_text(q.slug) == given(form.slug@)
    &&& q.trust_level == trust_of(form.trust_level@)
    &&& text::texts(q.declared_scopes@) == text::words_of(form.declared_scopes@)
}

/// Reads what to change of which application.
pub fn admin_app_edit_submit_request(csrf_ok: bool, cid: &str, form: &AppEditForm) -> (r: Result<
    UpdateClientRequest,
    web::Reply<AppEditTemplate>,
>)
    ensures
        !csrf_ok ==> r is Err && r->Err_0 is Forbidden,
        csrf_ok ==> match codec::uuid_of(cid@) {
            None => r is Err && r->Err_0.not_found("Application not found"@),
            Some(id) => r is Ok && updates(r->Ok_0, id, *form),
        },
{
    let client_id: u128 = match web::require_one(csrf_ok, cid, "Application not found") {
        Ok(id) => id,
        Err(reply) => return Err(reply),
    };
    Ok(
        UpdateClientRequest {
            client_id,
            client_name: take_given(form.client_name.as_str()),
            redirect_uris: text::read_lines(form.redirect_uris.as_str()),
            grant_types: select_grants(
                is_checked(form.grant_authorization_code.as_str()),
                is_checked(form.grant_client_credentials.as_str()),
                is_checked(form.grant_refresh_token.as_str()),
                is_checked(form.grant_device_code.as_str()),
            ),
            require_consent: is_checked(form.require_consent.as_str()),
            client_logo_url: take_given(form.client_logo_url.as_str()),
            slug: take_given(form.slug.as_str()),
            trust_level: parse_trust(form.trust_level.as_str()),
            declared_scopes: text::split_whitespace(form.declared_scopes.as_str()),
        },
    )
}

/// Answers after the engine tried to change an application; `found` is the
/// application, read again where the form has to be shown again.
pub fn admin_app_edit_submit(
    site: &web::Site,
    session: &web::UiSession,
    target: &web::TargetRealm,
    client_id: u128,
    form: &AppEditForm,
    updated: Result<(), web::EngineError>,
    found: Option<OAuthClient>,
) -> (r: web::Outcome<AppEditTemplate>)
    ensures
        match updated {
            Ok(_) => {
                &&& r.log() == seq![
                    app_event(*session, target.id, web::AuditAction::ClientUpdated, client_id),
                ]
                &&& r.reply.redirects(
                    "/ui/admin/realms/"@ + target.name@ + "/applications/"@ + codec::hyphenated(
                        client_id,
                    ),
                )
            },
            Err(e) => r.is_silent() && match e.kind {
                web::ErrorKind::InvalidClient => r.reply.not_found("Application not found"@),
                web::ErrorKind::InvalidInput(reason) => match found {
                    Some(app) => r.reply is Page && r.reply->Page_0.shows(
                        *site,
                        *session,
                        target.name@,
                        app,
                        form.client_name@,
                        Some(reason@),
                    ),
                    None => r.reply is ServerError,
                },
                _ => r.reply is ServerError,
            },
        },
{
    match updated {
        Ok(_) => {
            let event = audit::audit_app_event(session, target.id, client_id, "update");
            proof {
                lemma_app_operations();
            }
            let url = "/ui/admin/realms/".to_owned().concat(target.name.as_str()).concat(
                "/applications/",
            ).concat(codec::uuid_text(client_id).as_str());
            web::Outcome::noted(web::Reply::Redirect(url), event)
        },
        Err(e) => match e.kind {
            web::ErrorKind::InvalidClient => web::Outcome::silent(
                web::Reply::missing("Application not found"),
            ),
            web::ErrorKind::InvalidInput(reason) => match found {
                Some(app) => {
                    let mut page = AppEditTemplate::from_client(
                        app,
                        target.name.as_str(),
                        session,
                        site,
                    );
                    page.error = Some(reason);
                    page.form.client_name = form.client_name.clone();
                    web::Outcome::silent(web::Reply::Page(page))
                },
                None => web::Outcome::silent(web::Reply::ServerError),
            },
            _ => web::Outcome::silent(web::Reply::ServerError),
        },
    }
}

/// Grant types that checkboxes selected are selected again by the form that
/// shows them.
pub proof fn law_grants_round_trip(code: bool, credentials: bool, refresh: bool, device: bool)
    ensures
        ({
            let g = grants_of(code, credentials, refresh, device);
            g == grants_of(
                g.contains("authorization_code"@),
                g.contains("client_credentials"@),
                g.contains("refresh_token"@),
                g.contains("urn:ietf:params:oauth:grant-type:device_code"@),
            )
        }),
{
    reveal_strlit("authorization_code");
    reveal_strlit("client_credentials");
    reveal_strlit("refresh_token");
    reveal_strlit("urn:ietf:params:oauth:grant-type:device_code");
    let g = grants_of(code, credentials, refresh, device);
    let code2 = code || (!credentials && !refresh && !device);
    assert("authorization_code"@[0] == 'a' && "client_credentials"@[0] == 'c'
        && "refresh_token"@[0] == 'r' && "urn:ietf:params:oauth:grant-type:device_code"@[0] == 'u');
    if code2 {
        assert(g[0] == "authorization_code"@);
    }
    let at_b: int = if code2 {
        1
    } else {
        0
    };
    if credentials {
        assert(g[at_b] == "client_credentials"@);
    }
    let at_c: int = if credentials {
        at_b + 1
    } else {
        at_b
    };
    if refresh {
        assert(g[at_c] == "refresh_token"@);
    }
    if device {
        assert(g[g.len() - 1] == "urn:ietf:params:oauth:grant-type:device_code"@);
    }
    assert(g.contains("authorization_code"@) == code2);
    assert(g.contains("client_credentials"@) == credentials);
    assert(g.contains("refresh_token"@) == refresh);
    assert(g.contains("urn:ietf:params:oauth:grant-type:device_code"@) == device);
}

/// The edit form, submitted as it was shown, keeps what the application is:
/// redirect addresses that fill lines, scopes that are words, grant types that
/// checkboxes can select, the trust level and the consent.
pub proof fn law_unchanged_form(
    app: OAuthClient,
    form: AppEditForm,
    request: UpdateClientRequest,
    code: bool,
    credentials: bool,
    refresh: bool,
    device: bool,
)
    requires
        updates(request, app.id, form),
        forall|k: int| 0 <= k < app.redirect_uris@.len() ==> text::is_line(#[trigger] app.redirect_uris@[k]@),
        forall|k: int|
            0 <= k < app.declared_scopes@.len() ==> text::is_word(#[trigger] app.declared_scopes@[k]@),
        text::texts(app.grant_types@) == grants_of(code, credentials, refresh, device),
        ({
            let shown = client_fields(app, app.client_name@);
            &&& form.redirect_uris@ == shown.redirect_uris
            &&& checked(form.grant_authorization_code@) == shown.grant_authorization_code
            &&& checked(form.grant_client_credentials@) == shown.grant_client_credentials
            &&& checked(form.grant_refresh_token@) == shown.grant_refresh_token
            &&& checked(form.grant_device_code@) == shown.grant_device_code
            &&& form.trust_level@ == shown.trust_level
            &&& checked(form.require_consent@) == shown.require_consent
            &&& form.declared_scopes@ == shown.declared_scopes
        }),
    ensures
        text::texts(request.redirect_uris@) == text::texts(app.redirect_uris@),
        text::texts(request.declared_scopes@) == text::texts(app.declared_scopes@),
        text::texts(request.grant_types@) == text::texts(app.grant_types@),
        request.trust_level == app.trust_level,
        request.require_consent == app.require_consent,
{
    let lines = text::texts(app.redirect_uris@);
    let words = text::texts(app.declared_scopes@);
    assert forall|k: int| 0 <= k < lines.len() implies text::is_line(#[trigger] lines[k]) by {
        assert(lines[k] == app.redirect_uris@[k]@);
    }
    assert forall|k: int| 0 <= k < words.len() implies text::is_word(#[trigger] words[k]) by {
        assert(words[k] == app.declared_scopes@[k]@);
    }
    text::law_lines_round_trip(lines);
    text::law_words_round_trip(words);
    law_grants_round_trip(code, credentials, refresh, device);
    law_trust_round_trip(app.trust_level);
}

// ---------------------------------------------------------------------------
// Deletion
// ---------------------------------------------------------------------------

/// Answers after the engine tried to delete an application.
pub fn admin_app_delete(
    session: &web::UiSession,
    target: &web::TargetRealm,
    client_id: u128,
    deleted: Result<(), web::EngineError>,
) -> (r: web::Outcome<()>)
    ensures
        match deleted {
            Ok(_) => {
                &&& r.log() == seq![
                    app_event(*session, target.id, web::AuditAction::ClientDeleted, client_id),
                ]
                &&& r.reply.redirects("/ui/admin/realms/"@ + target.name@ + "/applications"@)
            },
            Err(e) => r.is_silent() && if e.kind is InvalidClient {
                r.reply.not_found("Application not found"@)
            } else {
                r.reply is ServerError
            },
        },
{
    match deleted {
        Ok(_) => {
            let event = audit::audit_app_event(session, target.id, client_id, "delete");
            proof {
                lemma_app_operations();
            }
            let url = "/ui/admin/realms/".to_owned().concat(target.name.as_str()).concat(
                "/applications",
            );
            web::Outcome::noted(web::Reply::Redirect(url), event)
        },
        Err(e) => match e.kind {
            web::ErrorKind::InvalidClient => web::Outcome::silent(
                web::Reply::missing("Application not found"),
            ),
            _ => web::Outcome::silent(web::Reply::ServerError),
        },
    }
}

/// What is seen of a row is what it holds, each part under its own name.
pub proof fn law_rows_seen(a: AppFields)
    ensures
        a@.client_name == a.client_name@,
        a@.slug == a.slug@,
        a@.client_type == a.client_type@,
        a@.redirect_uris == a.redirect_uris@,
        a@.grant_authorization_code == a.grant_authorization_code,
        a@.grant_client_credentials == a.grant_client_credentials,
        a@.grant_refresh_token == a.grant_refresh_token,
        a@.grant_device_code == a.grant_device_code,
        a@.trust_level == a.trust_level@,
        a@.require_consent == a.require_consent,
        a@.declared_scopes == a.declared_scopes@,
        a@.client_logo_url == a.client_logo_url@,
{
}

/// Where the page shows an application and, where there is one, its new secret:
/// each part of what that says.
pub proof fn law_app_detail_template_shows(
    page: AppDetailTemplate,
    site: web::Site,
    session: web::UiSession,
    target: web::TargetRealm,
    app: OAuthClient,
    secret: Option<String>,
)
    requires
        page.shows(site, session, target, app, secret),
    ensures
        page.app == app,
        page.realm_name@ == target.name@,
        page.client_secret == secret,
        page.chrome.is_admin_page(site, session, "applications"@),
        page.chrome.flash is None,
{
}

/// Where the page shows a form and an error: each part of what that says.
pub proof fn law_app_new_template_shows(
    page: AppNewTemplate,
    site: web::Site,
    session: web::UiSession,
    realm_name: Seq<char>,
    form: AppFieldsView,
    error: Option<Seq<char>>,
)
    requires
        page.shows(site, session, realm_name, form, error),
    ensures
        text::opt_text(page.error) == error,
        page.realm_name@ == realm_name,
        page.form@ == form,
        page.active_tab@ == "applications"@,
        page.chrome.is_admin_page(site, session, "realm-workspace"@),
        page.chrome.flash is None,
{
}

/// Where a request registers what the form says, besides the secret: each part of
/// what that says.
pub proof fn law_registers(q: RegisterClientRequest, form: AppCreateForm)
    requires
        registers(q, form),
    ensures
        q.client_name@ == form.client_name@,
        text::texts(q.redirect_uris@) == text::filled_lines(form.redirect_uris@),
        text::texts(q.grant_types@) == grants_of(
            checked(form.grant_authorization_code@),
            checked(form.grant_client_credentials@),
            checked(form.grant_refresh_token@),
            checked(form.grant_device_code@),
        ),
        q.require_consent == checked(form.require_consent@),
        text::opt_text(q.client_logo_url) == given(form.client_logo_url@),
        text::opt_text(q.slug) == given(form.slug@),
        q.trust_level == trust_of(form.trust_level@),
        text::texts(q.declared_scopes@) == text::words_of(form.declared_scopes@),
        !q.consent_spans_orgs,
{
}

/// Where the page shows an application under a name, and an error: each part of
/// what that says.
pub proof fn law_app_edit_template_shows(
    page: AppEditTemplate,
    site: web::Site,
    session: web::UiSession,
    realm_name: Seq<char>,
    app: OAuthClient,
    name: Seq<char>,
    error: Option<Seq<char>>,
)
    requires
        page.shows(site, session, realm_name, app, name, error),
    ensures
        page.app == app,
        text::opt_text(page.error) == error,
        page.realm_name@ == realm_name,
        page.form@ == client_fields(app, name),
        page.active_tab@ == "applications"@,
        page.chrome.is_admin_page(site, session, "realm-workspace"@),
        page.chrome.flash is None,
{
}

/// Where a request changes what the form says: each part of what that says.
pub proof fn law_updates(
    q: UpdateClientRequest,
    client_id: u128,
    form: AppEditForm,
)
    requires
        updates(q, client_id, form),
    ensures
        q.client_id == client_id,
        text::opt_text(q.client_name) == given(form.client_name@),
        text::texts(q.redirect_uris@) == text::filled_lines(form.redirect_uris@),
        text::texts(q.grant_types@) == grants_of(
            checked(form.grant_authorization_code@),
            checked(form.grant_client_credentials@),
            checked(form.grant_refresh_token@),
            checked(form.grant_device_code@),
        ),
        q.require_consent == checked(form.require_consent@),
        text::opt_text(q.client_logo_url) == given(form.client_logo_url@),
        text::opt_text(q.slug) == given(form.slug@),
        q.trust_level == trust_of(form.trust_level@),
        text::texts(q.declared_scopes@) == text::words_of(form.declared_scopes@),
{
}

/// Part by part: the fields of the empty form: a public third-party client with
/// the authorization code grant, whose users are asked for consent.
pub proof fn law_blank_fields()
    ensures
        blank_fields().client_name.len() == 0,
        blank_fields().slug.len() == 0,
        blank_fields().client_type == "public"@,
        blank_fields().redirect_uris.len() == 0,
        blank_fields().grant_authorization_code == true,
        blank_fields().grant_client_credentials == false,
        blank_fields().grant_refresh_token == false,
        blank_fields().grant_device_code == false,
        blank_fields().trust_level == "third_party"@,
        blank_fields().require_consent == true,
        blank_fields().declared_scopes.len() == 0,
        blank_fields().client_logo_url.len() == 0,
{
}

/// Part by part: the form as it was submitted.
pub proof fn law_submitted_fields(form: AppCreateForm)
    ensures
        submitted_fields(form).client_name == form.client_name@,
        submitted_fields(form).slug == form.slug@,
        submitted_fields(form).client_type == form.client_type@,
        submitted_fields(form).redirect_uris == form.redirect_uris@,
        submitted_fields(form).grant_authorization_code == checked(form.grant_authorization_code@),
        submitted_fields(form).grant_client_credentials == checked(form.grant_client_credentials@),
        submitted_fields(form).grant_refresh_token == checked(form.grant_refresh_token@),
        submitted_fields(form).grant_device_code == checked(form.grant_device_code@),
        submitted_fields(form).trust_level == form.trust_level@,
        submitted_fields(form).require_consent == checked(form.require_consent@),
        submitted_fields(form).declared_scopes == form.declared_scopes@,
        submitted_fields(form).client_logo_url == form.client_logo_url@,
{
}

/// Part by part: the form that shows what an application is, under the name
/// `name`.
pub proof fn law_client_fields(app: OAuthClient, name: Seq<char>)
    ensures
        client_fields(app, name).client_name == name,
        client_fields(app, name).slug == app.slug@,
        client_fields(app, name).client_type.len() == 0,
        client_fields(app, name).redirect_uris == text::joined(text::texts(app.redirect_uris@), "\n"@),
        client_fields(app, name).grant_authorization_code == text::texts(
            app.grant_types@,
        ).contains("authorization_code"@),
        client_fields(app, name).grant_client_credentials == text::texts(
            app.grant_types@,
        ).contains("client_credentials"@),
        client_fields(app, name).grant_refresh_token == text::texts(
            app.grant_types@,
        ).contains("refresh_token"@),
        client_fields(app, name).grant_device_code == text::texts(
            app.grant_types@,
        ).contains("urn:ietf:params:oauth:grant-type:device_code"@),
        client_fields(app, name).trust_level == app.trust_level.name(),
        client_fields(app, name).require_consent == app.require_consent,
        client_fields(app, name).declared_scopes == text::joined(
            text::texts(app.declared_scopes@),
            " "@,
        ),
        client_fields(app, name).client_logo_url == access::text_or_empty(app.client_logo_url),
{
}

/// What happens to an application is recorded of it, in its realm.
pub proof fn law_app_event(
    session: web::UiSession,
    realm_id: u128,
    action: web::AuditAction,
    client_id: u128,
)
    ensures
        ({
            let e = app_event(session, realm_id, action, client_id);
            &&& e.realm_id == realm_id
            &&& e.actor == codec::hyphenated(session.user_id)
            &&& e.action == action
            &&& e.resource_type == "client"@
            &&& e.resource_id == codec::hyphenated(client_id)
            &&& web::told(e.metadata, "via"@) == Some(web::MetaView::Text("ui"@))
        }),
{
    web::law_ui_event(
        session,
        realm_id,
        action,
        "client"@,
        codec::hyphenated(client_id),
        web::via_ui(),
    );
}

/// The address of an application ends with its identifier, and in the nested
/// layout names its realm.
pub proof fn law_app_address(target: web::TargetRealm, client_id: u128)
    ensures
        target.routes is Flat ==> app_address(target, client_id) == "/ui/admin/applications/"@
            + codec::hyphenated(client_id),
        target.routes is Nested ==> app_address(target, client_id) == "/ui/admin/realms/"@
            + target.name@ + "/applications/"@ + codec::hyphenated(client_id),
        app_address(target, client_id).skip(app_address(target, client_id).len() - 36)
            == codec::hyphenated(client_id),
{
    let a = app_address(target, client_id);
    reveal_strlit("/applications/");
    reveal_strlit("/");
    reveal_strlit("applications");
    assert("/"@ + "applications"@ + "/"@ =~= "/applications/"@);
    assert(a.skip(a.len() - 36) =~= codec::hyphenated(client_id));
    if target.routes is Nested {
        assert(a =~= "/ui/admin/realms/"@ + target.name@ + "/applications/"@ + codec::hyphenated(
            client_id,
        ));
    }
}

/// The two levels of trust go by different names, and what is not trusted by name
/// is not trusted.
pub proof fn law_trust(level: ClientTrustLevel, word: Seq<char>)
    ensures
        level is FirstParty ==> level.name() == "first_party"@,
        level is ThirdParty ==> level.name() == "third_party"@,
        trust_of(word) is FirstParty <==> word == "first_party"@,
{
}

/// A grant type is chosen exactly where its box is checked; where none is, the
/// authorization code is. None is chosen twice.
pub proof fn law_grants(code: bool, credentials: bool, refresh: bool, device: bool)
    ensures
        ({
            let g = grants_of(code, credentials, refresh, device);
            let none = !code && !credentials && !refresh && !device;
            &&& g.contains("authorization_code"@) <==> code || none
            &&& g.contains("client_credentials"@) <==> credentials
            &&& g.contains("refresh_token"@) <==> refresh
            &&& g.contains("urn:ietf:params:oauth:grant-type:device_code"@) <==> device
            &&& g.no_duplicates()
            &&& forall|s: Seq<char>| #[trigger]
                g.contains(s) ==> s == "authorization_code"@ || s == "client_credentials"@ || s
                    == "refresh_token"@ || s == "urn:ietf:params:oauth:grant-type:device_code"@
        }),
{
    reveal_strlit("authorization_code");
    reveal_strlit("client_credentials");
    reveal_strlit("refresh_token");
    reveal_strlit("urn:ietf:params:oauth:grant-type:device_code");
    let a = "authorization_code"@;
    let b = "client_credentials"@;
    let c = "refresh_token"@;
    let d = "urn:ietf:params:oauth:grant-type:device_code"@;
    assert(a[0] == 'a' && b[0] == 'c' && c[0] == 'r' && d[0] == 'u');
    let g = grants_of(code, credentials, refresh, device);
    if !code && !credentials && !refresh && !device {
        assert(g[0] == a);
    } else {
        let n1 = if code {
            1int
        } else {
            0int
        };
        let n2 = if credentials {
            n1 + 1
        } else {
            n1
        };
        let n3 = if refresh {
            n2 + 1
        } else {
            n2
        };
        if code {
            assert(g[0] == a);
        }
        if credentials {
            assert(g[n1] == b);
        }
        if refresh {
            assert(g[n2] == c);
        }
        if device {
            assert(g[n3] == d);
        }
    }
}

/// A box is checked by one value only, and a field left empty gives nothing.
pub proof fn law_form_values(value: Seq<char>)
    ensures
        checked(value) <==> value == "1"@,
        value.len() == 0 ==> given(value) is None,
        value.len() > 0 ==> given(value) == Some(value),
{
}

} // verus!
