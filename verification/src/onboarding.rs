//! The wizard of the first run: a realm, an application, an administrator, the
//! mail transport. Its state travels in query parameters.

use crate::access;
use crate::clients;
use crate::codec;
use crate::query;
use crate::sessions;
use crate::text;
use crate::users;
use crate::web;
use vstd::prelude::*;
use vstd::string::*;

verus! {

/// Query parameters of the wizard's steps.
pub struct WizardStepParams {
    pub realm: String,
    pub client_id: String,
    pub invited: String,
    pub app: String,
}

/// What the wizard says after a failure of the engine: no internal detail.
pub open spec fn friendly_error(e: web::EngineError) -> Seq<char> {
    match e.kind {
        web::ErrorKind::DuplicateRealmName =>
            "A realm with that name already exists. Choose a different name."@,
        web::ErrorKind::DuplicateEmail => "A user with that email already exists."@,
        _ => "An unexpected error occurred. Please try again."@,
    }
}

/// Says what failed, without internal detail.
pub fn friendly_identity_error(e: &web::EngineError) -> (r: String)
    ensures
        r@ == friendly_error(*e),
{
    match &e.kind {
        web::ErrorKind::DuplicateRealmName =>
            "A realm with that name already exists. Choose a different name.".to_owned(),
        web::ErrorKind::DuplicateEmail => "A user with that email already exists.".to_owned(),
        _ => "An unexpected error occurred. Please try again.".to_owned(),
    }
}

/// The first realm of a list with a name.
pub open spec fn realm_named(realms: Seq<sessions::RealmRef>, name: Seq<char>) -> Option<u128>
    decreases realms.len(),
{
    if realms.len() == 0 {
        None
    } else if realms[0].name@ == name {
        Some(realms[0].id)
    } else {
        realm_named(realms.skip(1), name)
    }
}

/// The number of realms among which the wizard finds its own.
pub const WIZARD_REALMS: usize = 50;

/// Finds a realm by its name.
pub fn resolve_realm_by_name(realms: &Vec<sessions::RealmRef>, realm_name: &str) -> (r: Option<u128>)
    ensures
        r == realm_named(realms@, realm_name@),
{
    let mut i: usize = 0;
    proof {
        assert(realms@.skip(0) =~= realms@);
    }
    while i < realms.len()
        invariant
            i <= realms.len(),
            realm_named(realms@, realm_name@) == realm_named(realms@.skip(i as int), realm_name@),
        decreases realms.len() - i,
    {
        proof {
            assert(realms@.skip(i as int)[0] == realms@[i as int]);
            assert(realms@.skip(i as int).skip(1) =~= realms@.skip(i + 1));
        }
        if text::same(realms[i].name.as_str(), realm_name) {
            return Some(realms[i].id);
        }
        i += 1;
    }
    None
}

/// Takes the realm that a step is about from the realms that were listed; none
/// where they could not be listed.
pub fn wizard_realm<P>(realms: &Option<Vec<sessions::RealmRef>>, realm_name: &str) -> (r: Result<
    u128,
    web::Reply<P>,
>)
    ensures
        match realms {
            Some(list) => match realm_named(list@, realm_name@) {
                Some(id) => r == Ok::<u128, web::Reply<P>>(id),
                None => r is Err && r->Err_0.not_found("Realm not found"@),
            },
            None => r is Err && r->Err_0.not_found("Realm not found"@),
        },
{
    let found = match realms {
        Some(list) => resolve_realm_by_name(list, realm_name),
        None => None,
    };
    match found {
        Some(id) => Ok(id),
        None => Err(web::Reply::missing("Realm not found")),
    }
}

// ---------------------------------------------------------------------------
// The realm
// ---------------------------------------------------------------------------

/// The page of the first step.
pub struct WizardTemplate {
    pub error: Option<String>,
    pub form_realm_name: String,
    pub form_display_name: String,
    pub form_theme: String,
    pub chrome: web::Chrome,
}

impl WizardTemplate {
    /// Whether the page shows a form and an error.
    pub open spec fn shows(
        self,
        site: web::Site,
        session: web::UiSession,
        realm_name: Seq<char>,
        display_name: Seq<char>,
        theme: Seq<char>,
        error: Option<Seq<char>>,
    ) -> bool {
        &&& text::opt_text(self.error) == error
        &&& self.form_realm_name@ == realm_name
        &&& self.form_display_name@ == display_name
        &&& self.form_theme@ == theme
        &&& self.chrome.is_admin_page(site, session, "onboarding"@)
        &&& self.chrome.flash is None
    }
}

/// Shows the first step, where the wizard is still needed; else goes to the
/// dashboard.
pub fn admin_onboarding_get(
    site: &web::Site,
    session: &web::UiSession,
    needed: Result<bool, web::EngineError>,
) -> (r: web::Reply<WizardTemplate>)
    ensures
        match needed {
            Err(_) => r is ServerError,
            Ok(false) => r.redirects("/ui"@),
            Ok(true) => r is Page && r->Page_0.shows(
                *site,
                *session,
                Seq::empty(),
                Seq::empty(),
                "ember"@,
                None,
            ),
        },
{
    match needed {
        Err(_) => web::Reply::ServerError,
        Ok(false) => web::Reply::redirect("/ui"),
        Ok(true) => web::Reply::Page(
            WizardTemplate {
                error: None,
                form_realm_name: String::new(),
                form_display_name: String::new(),
                form_theme: "ember".to_owned(),
                chrome: web::Chrome::admin(site, session, "onboarding"),
            },
        ),
    }
}

/// The form that creates the first realm.
pub struct RealmCreateForm {
    pub display_name: String,
    pub realm_name: String,
    pub theme: String,
    pub csrf: String,
}

/// What the engine is asked to create.
pub struct CreateRealmRequest {
    pub name: String,
    pub display_name: String,
    pub theme: String,
}

/// The theme that a form selects.
pub open spec fn selected_theme(theme: Seq<char>) -> Seq<char> {
    if theme.len() == 0 {
        "ember"@
    } else {
        theme
    }
}

/// Reads what to create; both names are required.
pub fn admin_onboarding_realm_post_request(
    csrf_ok: bool,
    site: &web::Site,
    session: &web::UiSession,
    form: &RealmCreateForm,
) -> (r: Result<CreateRealmRequest, web::Reply<WizardTemplate>>)
    ensures
        !csrf_ok ==> r is Err && r->Err_0 is Forbidden,
        csrf_ok ==> {
            let name = text::trimmed(form.realm_name@);
            let display_name = text::trimmed(form.display_name@);
            let theme = selected_theme(form.theme@);
            if name.len() == 0 || display_name.len() == 0 {
                r is Err && r->Err_0 is Page && r->Err_0->Page_0.shows(
                    *site,
                    *session,
                    name,
                    display_name,
                    theme,
                    Some("Display name and realm name are required."@),
                )
            } else {
                r is Ok && r->Ok_0.name@ == name && r->Ok_0.display_name@ == display_name
                    && r->Ok_0.theme@ == theme
            }
        },
{
    if !csrf_ok {
        return Err(web::Reply::Forbidden);
    }
    let display_name = text::trim(form.display_name.as_str());
    let name = text::trim(form.realm_name.as_str());
    let theme = if form.theme.as_str().is_empty() {
        "ember".to_owned()
    } else {
        form.theme.clone()
    };
    if display_name.as_str().is_empty() || name.as_str().is_empty() {
        return Err(
            web::Reply::Page(
                WizardTemplate {
                    error: Some("Display name and realm name are required.".to_owned()),
                    form_realm_name: name,
                    form_display_name: display_name,
                    form_theme: theme,
                    chrome: web::Chrome::admin(site, session, "onboarding"),
                },
            ),
        );
    }
    Ok(CreateRealmRequest { name, display_name, theme })
}

/// Answers after the engine tried to create the realm.
pub fn admin_onboarding_realm_post(
    site: &web::Site,
    session: &web::UiSession,
    request: CreateRealmRequest,
    created: Result<(), web::EngineError>,
) -> (r: web::Reply<WizardTemplate>)
    ensures
        match created {
            Ok(_) => r.redirects(
                "/ui/admin/onboarding/app?realm="@ + codec::query_value(request.name@),
            ),
            Err(e) => r is Page && r->Page_0.shows(
                *site,
                *session,
                request.name@,
                request.display_name@,
                request.theme@,
                Some(friendly_error(e)),
            ),
        },
{
    match created {
        Ok(_) => {
            let url = "/ui/admin/onboarding/app?realm=".to_owned().concat(
                codec::qenc(request.name.as_str()).as_str(),
            );
            web::Reply::Redirect(url)
        },
        Err(e) => web::Reply::Page(
            WizardTemplate {
                error: Some(friendly_identity_error(&e)),
                form_realm_name: request.name,
                form_display_name: request.display_name,
                form_theme: request.theme,
                chrome: web::Chrome::admin(site, session, "onboarding"),
            },
        ),
    }
}

// ---------------------------------------------------------------------------
// The application
// ---------------------------------------------------------------------------

/// The page of the second step.
pub struct StepAppTemplate {
    pub realm_name: String,
    pub error: Option<String>,
    pub form_app_name: String,
    pub form_redirect_uri: String,
    pub form_grant_authorization_code: bool,
    pub form_grant_refresh_token: bool,
    pub form_grant_client_credentials: bool,
    pub chrome: web::Chrome,
}

impl StepAppTemplate {
    /// Whether the page is one of the wizard, for a realm, with an error.
    pub open spec fn is_for(
        self,
        site: web::Site,
        session: web::UiSession,
        realm_name: Seq<char>,
        error: Option<Seq<char>>,
    ) -> bool {
        &&& self.realm_name@ == realm_name
        &&& text::opt_text(self.error) == error
        &&& self.chrome.is_admin_page(site, session, "onboarding"@)
        &&& self.chrome.flash is None
    }

    /// Whether the page repeats a form.
    pub open spec fn repeats(self, form: AppCreateWizardForm) -> bool {
        &&& self.form_app_name@ == text::trimmed(form.app_name@)
        &&& self.form_redirect_uri@ == text::trimmed(form.redirect_uri@)
        &&& self.form_grant_authorization_code == clients::checked(form.grant_authorization_code@)
        &&& self.form_grant_refresh_token == clients::checked(form.grant_refresh_token@)
        &&& self.form_grant_client_credentials == clients::checked(form.grant_client_credentials@)
    }
}

/// Shows the second step.
pub fn admin_onboarding_app_get(
    site: &web::Site,
    session: &web::UiSession,
    params: WizardStepParams,
) -> (r: web::Reply<StepAppTemplate>)
    ensures
        r is Page && {
            let p = r->Page_0;
            &&& p.is_for(*site, *session, params.realm@, None)
            &&& p.form_app_name@.len() == 0
            &&& p.form_redirect_uri@.len() == 0
            &&& p.form_grant_authorization_code
            &&& !p.form_grant_refresh_token
            &&& !p.form_grant_client_credentials
        },
{
    web::Reply::Page(
        StepAppTemplate {
            realm_name: params.realm,
            error: None,
            form_app_name: String::new(),
            form_redirect_uri: String::new(),
            form_grant_authorization_code: true,
            form_grant_refresh_token: false,
            form_grant_client_credentials: false,
            chrome: web::Chrome::admin(site, session, "onboarding"),
        },
    )
}

/// The form that registers the first application.
pub struct AppCreateWizardForm {
    pub realm: String,
    pub app_name: String,
    pub redirect_uri: String,
    /// "1" where the checkbox is checked.
    pub grant_authorization_code: String,
    pub grant_refresh_token: String,
    pub grant_client_credentials: String,
    pub csrf: String,
}

fn repeat_app_form(
    site: &web::Site,
    session: &web::UiSession,
    form: &AppCreateWizardForm,
    error: String,
) -> (r: StepAppTemplate)
    ensures
        r.is_for(*site, *session, text::trimmed(form.realm@), Some(error@)),
        r.repeats(*form),
{
    StepAppTemplate {
        realm_name: text::trim(form.realm.as_str()),
        error: Some(error),
        form_app_name: text::trim(form.app_name.as_str()),
        form_redirect_uri: text::trim(form.redirect_uri.as_str()),
        form_grant_authorization_code: text::same(form.grant_authorization_code.as_str(), "1"),
        form_grant_refresh_token: text::same(form.grant_refresh_token.as_str(), "1"),
        form_grant_client_credentials: text::same(form.grant_client_credentials.as_str(), "1"),
        chrome: web::Chrome::admin(site, session, "onboarding"),
    }
}

/// Checks the form of the second step: without a realm the wizard starts over;
/// the name and the address are required. Gives the name of the realm.
pub fn admin_onboarding_app_post_check(
    csrf_ok: bool,
    site: &web::Site,
    session: &web::UiSession,
    form: &AppCreateWizardForm,
) -> (r: Result<String, web::Reply<StepAppTemplate>>)
    ensures
        !csrf_ok ==> r is Err && r->Err_0 is Forbidden,
        csrf_ok ==> {
            let realm = text::trimmed(form.realm@);
            if realm.len() == 0 {
                r is Err && r->Err_0.redirects("/ui/admin/onboarding"@)
            } else if text::trimmed(form.app_name@).len() == 0 || text::trimmed(
                form.redirect_uri@,
            ).len() == 0 {
                r is Err && r->Err_0 is Page && r->Err_0->Page_0.is_for(
                    *site,
                    *session,
                    realm,
                    Some("Application name and redirect URI are required."@),
                ) && r->Err_0->Page_0.repeats(*form)
            } else {
                r is Ok && r->Ok_0@ == realm
            }
        },
{
    if !csrf_ok {
        return Err(web::Reply::Forbidden);
    }
    let realm = text::trim(form.realm.as_str());
    if realm.as_str().is_empty() {
        return Err(web::Reply::redirect("/ui/admin/onboarding"));
    }
    if text::trim(form.app_name.as_str()).as_str().is_empty() || text::trim(
        form.redirect_uri.as_str(),
    ).as_str().is_empty() {
        return Err(
            web::Reply::Page(
                repeat_app_form(
                    site,
                    session,
                    form,
                    "Application name and redirect URI are required.".to_owned(),
                ),
            ),
        );
    }
    Ok(realm)
}

/// The grant types that the wizard's checkboxes select; without any, that of
/// the authorization code.
pub open spec fn wizard_grants(code: bool, refresh: bool, credentials: bool) -> Seq<Seq<char>> {
    if !code && !refresh && !credentials {
        seq!["authorization_code"@]
    } else {
        let a = if code {
            seq!["authorization_code"@]
        } else {
            Seq::empty()
        };
        let b = if refresh {
            a.push("refresh_token"@)
        } else {
            a
        };
        if credentials {
            b.push("client_credentials"@)
        } else {
            b
        }
    }
}

/// Reads what to register: a public third-party client whose users are asked
/// for consent.
pub fn admin_onboarding_app_post_request(form: &AppCreateWizardForm) -> (r:
    clients::RegisterClientRequest)
    ensures
        r.client_name@ == text::trimmed(form.app_name@),
        text::texts(r.redirect_uris@) == seq![text::trimmed(form.redirect_uri@)],
        r.client_secret is None,
        text::texts(r.grant_types@) == wizard_grants(
            clients::checked(form.grant_authorization_code@),
            clients::checked(form.grant_refresh_token@),
            clients::checked(form.grant_client_credentials@),
        ),
        r.require_consent,
        r.client_logo_url is None,
        r.slug is None,
        r.trust_level == clients::ClientTrustLevel::ThirdParty,
        r.declared_scopes@.len() == 0,
        !r.consent_spans_orgs,
{
    let mut redirect_uris: Vec<String> = Vec::new();
    redirect_uris.push(text::trim(form.redirect_uri.as_str()));
    let mut grant_types: Vec<String> = Vec::new();
    if text::same(form.grant_authorization_code.as_str(), "1") {
        grant_types.push("authorization_code".to_owned());
    }
    if text::same(form.grant_refresh_token.as_str(), "1") {
        grant_types.push("refresh_token".to_owned());
    }
    if text::same(form.grant_client_credentials.as_str(), "1") {
        grant_types.push("client_credentials".to_owned());
    }
    if grant_types.len() == 0 {
        grant_types.push("authorization_code".to_owned());
    }
    proof {
        assert(text::texts(redirect_uris@) =~= seq![text::trimmed(form.redirect_uri@)]);
        assert(text::texts(grant_types@) =~= wizard_grants(
            clients::checked(form.grant_authorization_code@),
            clients::checked(form.grant_refresh_token@),
            clients::checked(form.grant_client_credentials@),
        ));
    }
    clients::RegisterClientRequest {
        client_name: text::trim(form.app_name.as_str()),
        redirect_uris,
        client_secret: None,
        grant_types,
        require_consent: true,
        client_logo_url: None,
        slug: None,
        trust_level: clients::ClientTrustLevel::ThirdParty,
        declared_scopes: Vec::new(),
        consent_spans_orgs: false,
    }
}

/// The address of the third step.
pub open spec fn invite_address(realm: Seq<char>, client_id: Seq<char>, app: Seq<char>) -> Seq<
    char,
> {
    "/ui/admin/onboarding/invite?realm="@ + codec::query_value(realm) + "&client_id="@
        + codec::query_value(client_id) + "&app="@ + codec::query_value(app)
}

/// Answers after the engine tried to register the application.
pub fn admin_onboarding_app_post(
    site: &web::Site,
    session: &web::UiSession,
    form: &AppCreateWizardForm,
    registered: Result<u128, web::EngineError>,
) -> (r: web::Reply<StepAppTemplate>)
    ensures
        match registered {
            Ok(id) => r.redirects(
                invite_address(
                    text::trimmed(form.realm@),
                    codec::hyphenated(id),
                    text::trimmed(form.app_name@),
                ),
            ),
            Err(e) => r is Page && r->Page_0.is_for(
                *site,
                *session,
                text::trimmed(form.realm@),
                Some(friendly_error(e)),
            ) && r->Page_0.repeats(*form),
        },
{
    match registered {
        Ok(id) => {
            let realm = text::trim(form.realm.as_str());
            let app = text::trim(form.app_name.as_str());
            let url = "/ui/admin/onboarding/invite?realm=".to_owned().concat(
                codec::qenc(realm.as_str()).as_str(),
            ).concat("&client_id=").concat(
                codec::qenc(codec::uuid_text(id).as_str()).as_str(),
            ).concat("&app=").concat(codec::qenc(app.as_str()).as_str());
            web::Reply::Redirect(url)
        },
        Err(e) => web::Reply::Page(
            repeat_app_form(site, session, form, friendly_identity_error(&e)),
        ),
    }
}

// ---------------------------------------------------------------------------
// The administrator
// ---------------------------------------------------------------------------

/// The page of the third step.
pub struct StepInviteTemplate {
    pub realm_name: String,
    pub error: Option<String>,
    pub form_email: String,
    pub form_role: String,
    pub available_roles: Vec<String>,
    pub chrome: web::Chrome,
}

impl StepInviteTemplate {
    /// Whether the page shows a form and an error.
    pub open spec fn shows(
        self,
        site: web::Site,
        session: web::UiSession,
        realm_name: Seq<char>,
        email: Seq<char>,
        role: Seq<char>,
        error: Option<Seq<char>>,
    ) -> bool {
        &&& self.realm_name@ == realm_name
        &&& text::opt_text(self.error) == error
        &&& self.form_email@ == email
        &&& self.form_role@ == role
        &&& text::texts(self.available_roles@) == seq!["admin"@, "member"@]
        &&& self.chrome.is_admin_page(site, session, "onboarding"@)
        &&& self.chrome.flash is None
    }
}

fn invite_page(
    site: &web::Site,
    session: &web::UiSession,
    realm_name: String,
    email: String,
    role: String,
    error: Option<String>,
) -> (r: StepInviteTemplate)
    ensures
        r.shows(*site, *session, realm_name@, email@, role@, text::opt_text(error)),
{
    let mut available_roles: Vec<String> = Vec::new();
    available_roles.push("admin".to_owned());
    available_roles.push("member".to_owned());
    proof {
        assert(text::texts(available_roles@) =~= seq!["admin"@, "member"@]);
    }
    StepInviteTemplate {
        realm_name,
        error,
        form_email: email,
        form_role: role,
        available_roles,
        chrome: web::Chrome::admin(site, session, "onboarding"),
    }
}

/// Shows the third step.
pub fn admin_onboarding_invite_get(
    site: &web::Site,
    session: &web::UiSession,
    params: WizardStepParams,
) -> (r: web::Reply<StepInviteTemplate>)
    ensures
        r is Page && r->Page_0.shows(
            *site,
            *session,
            params.realm@,
            Seq::empty(),
            "admin"@,
            None,
        ),
{
    web::Reply::Page(
        invite_page(site, session, params.realm, String::new(), "admin".to_owned(), None),
    )
}

/// The form that invites the first administrator.
pub struct InviteWizardForm {
    pub realm: String,
    pub client_id: String,
    pub app: String,
    pub email: String,
    pub role: String,
    pub csrf: String,
}

/// Whom to invite.
pub struct InviteRequest {
    pub realm_name: String,
    pub email: String,
    pub role: String,
}

/// The role that a form selects.
pub open spec fn invited_role(role: Seq<char>) -> Seq<char> {
    if role.len() == 0 {
        "member"@
    } else {
        role
    }
}

/// Reads whom to invite: without a realm the wizard starts over; the email
/// address is required.
pub fn admin_onboarding_invite_post_request(
    csrf_ok: bool,
    site: &web::Site,
    session: &web::UiSession,
    form: &InviteWizardForm,
) -> (r: Result<InviteRequest, web::Reply<StepInviteTemplate>>)
    ensures
        !csrf_ok ==> r is Err && r->Err_0 is Forbidden,
        csrf_ok ==> {
            let realm = text::trimmed(form.realm@);
            let email = text::trimmed(form.email@);
            let role = invited_role(form.role@);
            if realm.len() == 0 {
                r is Err && r->Err_0.redirects("/ui/admin/onboarding"@)
            } else if email.len() == 0 {
                r is Err && r->Err_0 is Page && r->Err_0->Page_0.shows(
                    *site,
                    *session,
                    realm,
                    email,
                    role,
                    Some("Email address is required."@),
                )
            } else {
                r is Ok && r->Ok_0.realm_name@ == realm && r->Ok_0.email@ == email && r->Ok_0.role@
                    == role
            }
        },
{
    if !csrf_ok {
        return Err(web::Reply::Forbidden);
    }
    let realm_name = text::trim(form.realm.as_str());
    let email = text::trim(form.email.as_str());
    let role = if form.role.as_str().is_empty() {
        "member".to_owned()
    } else {
        form.role.clone()
    };
    if realm_name.as_str().is_empty() {
        return Err(web::Reply::redirect("/ui/admin/onboarding"));
    }
    if email.as_str().is_empty() {
        return Err(
            web::Reply::Page(
                invite_page(
                    site,
                    session,
                    realm_name,
                    email,
                    role,
                    Some("Email address is required.".to_owned()),
                ),
            ),
        );
    }
    Ok(InviteRequest { realm_name, email, role })
}

/// The user to create: without a password, and called like the email address.
pub fn admin_onboarding_invite_post_user(request: &InviteRequest) -> (r: users::CreateUserRequest)
    ensures
        r.email@ == request.email@,
        r.display_name@ == request.email@,
        r.first_name@.len() == 0,
        r.last_name@.len() == 0,
{
    users::CreateUserRequest {
        email: request.email.clone(),
        display_name: request.email.clone(),
        first_name: String::new(),
        last_name: String::new(),
    }
}

fn repeat_invite(
    site: &web::Site,
    session: &web::UiSession,
    request: &InviteRequest,
    error: String,
) -> (r: web::Reply<StepInviteTemplate>)
    ensures
        r is Page && r->Page_0.shows(
            *site,
            *session,
            request.realm_name@,
            request.email@,
            request.role@,
            Some(error@),
        ),
{
    web::Reply::Page(
        invite_page(
            site,
            session,
            request.realm_name.clone(),
            request.email.clone(),
            request.role.clone(),
            Some(error),
        ),
    )
}

/// Continues after the engine tried to create the user: tells the user and
/// whether the administrator role is to be assigned.
pub fn admin_onboarding_invite_post_created(
    site: &web::Site,
    session: &web::UiSession,
    request: &InviteRequest,
    created: Result<u128, web::EngineError>,
) -> (r: Result<(u128, bool), web::Reply<StepInviteTemplate>>)
    ensures
        match created {
            Ok(id) => r == Ok::<(u128, bool), web::Reply<StepInviteTemplate>>(
                (id, request.role@ == "admin"@),
            ),
            Err(e) => r is Err && r->Err_0 is Page && r->Err_0->Page_0.shows(
                *site,
                *session,
                request.realm_name@,
                request.email@,
                request.role@,
                Some(friendly_error(e)),
            ),
        },
{
    match created {
        Ok(id) => Ok((id, text::same(request.role.as_str(), "admin"))),
        Err(e) => Err(repeat_invite(site, session, request, friendly_identity_error(&e))),
    }
}

/// What stops the assignment of the administrator role: the roles could not be
/// seeded, or the role cannot be found.
pub open spec fn role_obstacle(
    seeded: Result<(), web::EngineError>,
    role: Result<Option<u128>, web::EngineError>,
) -> Option<Seq<char>> {
    match (seeded, role) {
        (Err(e), _) => Some("Failed to initialise realm roles: "@ + e.text@),
        (Ok(_), Err(e)) => Some("Failed to look up realm.admin role: "@ + e.text@),
        (Ok(_), Ok(None)) => Some(
            "Role 'realm.admin' missing after seed — please contact support"@,
        ),
        (Ok(_), Ok(Some(_))) => None,
    }
}

/// Prepares the assignment of the administrator role; what stops it is shown.
/// `role` is what the name `realm.admin` denotes once the defaults are seeded.
pub fn admin_onboarding_invite_post_role(
    site: &web::Site,
    session: &web::UiSession,
    request: &InviteRequest,
    user_id: u128,
    seeded: Result<(), web::EngineError>,
    role: Result<Option<u128>, web::EngineError>,
) -> (r: Result<users::RoleAction, web::Reply<StepInviteTemplate>>)
    ensures
        match role_obstacle(seeded, role) {
            Some(error) => r is Err && r->Err_0 is Page && r->Err_0->Page_0.shows(
                *site,
                *session,
                request.realm_name@,
                request.email@,
                request.role@,
                Some(error),
            ),
            None => r is Ok && r->Ok_0 == (users::RoleAction::Assign {
                user_id,
                role_id: role->Ok_0->0,
                scope: access::Scope::Realm,
                assigned_by: None,
            }),
        },
{
    if let Err(e) = seeded {
        let error = "Failed to initialise realm roles: ".to_owned().concat(e.text.as_str());
        return Err(repeat_invite(site, session, request, error));
    }
    match role {
        Err(e) => {
            let error = "Failed to look up realm.admin role: ".to_owned().concat(e.text.as_str());
            Err(repeat_invite(site, session, request, error))
        },
        Ok(None) => {
            let error = "Role 'realm.admin' missing after seed — please contact support".to_owned();
            Err(repeat_invite(site, session, request, error))
        },
        Ok(Some(role_id)) => Ok(
            users::RoleAction::Assign {
                user_id,
                role_id,
                scope: access::Scope::Realm,
                assigned_by: None,
            },
        ),
    }
}

/// Continues after the engine tried to assign the administrator role.
pub fn admin_onboarding_invite_post_assigned(
    site: &web::Site,
    session: &web::UiSession,
    request: &InviteRequest,
    assigned: Result<(), web::EngineError>,
) -> (r: Result<(), web::Reply<StepInviteTemplate>>)
    ensures
        match assigned {
            Ok(_) => r is Ok,
            Err(e) => r is Err && r->Err_0 is Page && r->Err_0->Page_0.shows(
                *site,
                *session,
                request.realm_name@,
                request.email@,
                request.role@,
                Some("Failed to assign admin role: "@ + e.text@),
            ),
        },
{
    match assigned {
        Ok(_) => Ok(()),
        Err(e) => {
            let error = "Failed to assign admin role: ".to_owned().concat(e.text.as_str());
            Err(repeat_invite(site, session, request, error))
        },
    }
}

/// The address of the installation, without slashes at its end.
pub open spec fn base_address(base_url: Option<String>) -> Seq<char> {
    text::without_trailing(sessions::text_or(base_url, "http://localhost:8420"@), '/')
}

fn base_of(base_url: &Option<String>) -> (r: String)
    ensures
        r@ == base_address(*base_url),
{
    text::trim_end_char(sessions::or_default(base_url, "http://localhost:8420").as_str(), '/')
}

/// Writes the link by which the invited user sets a password.
pub fn admin_onboarding_invite_post_link(
    request: &InviteRequest,
    base_url: &Option<String>,
    token: &str,
) -> (r: String)
    ensures
        r@ == base_address(*base_url) + "/ui/realms/"@ + codec::query_value(request.realm_name@)
            + "/reset-password?token="@ + token@,
{
    base_of(base_url).concat("/ui/realms/").concat(
        codec::qenc(request.realm_name.as_str()).as_str(),
    ).concat("/reset-password?token=").concat(token)
}

/// The address of the fourth step.
pub open spec fn email_address(
    realm: Seq<char>,
    invited: Seq<char>,
    client_id: Seq<char>,
    app: Seq<char>,
) -> Seq<char> {
    "/ui/admin/onboarding/email?realm="@ + codec::query_value(realm) + "&invited="@
        + codec::query_value(invited) + "&client_id="@ + codec::query_value(client_id) + "&app="@
        + codec::query_value(app)
}

/// Answers once the user is invited; whether the mail went out does not matter.
pub fn admin_onboarding_invite_post(request: &InviteRequest, form: &InviteWizardForm) -> (r:
    web::Reply<StepInviteTemplate>)
    ensures
        r.redirects(
            email_address(request.realm_name@, request.email@, form.client_id@, form.app@),
        ),
{
    let url = "/ui/admin/onboarding/email?realm=".to_owned().concat(
        codec::qenc(request.realm_name.as_str()).as_str(),
    ).concat("&invited=").concat(codec::qenc(request.email.as_str()).as_str()).concat(
        "&client_id=",
    ).concat(codec::qenc(form.client_id.as_str()).as_str()).concat("&app=").concat(
        codec::qenc(form.app.as_str()).as_str(),
    );
    web::Reply::Redirect(url)
}

// ---------------------------------------------------------------------------
// The mail transport
// ---------------------------------------------------------------------------

/// The mail transports that can be configured.
#[derive(Clone, Copy, PartialEq, Eq, Structural)]
pub enum EmailTransport {
    Log,
    Smtp,
    Sendgrid,
    Postmark,
    Mailgun,
    Mailtrap,
}

impl EmailTransport {
    /// The name of a transport.
    pub open spec fn name(self) -> Seq<char> {
        match self {
            EmailTransport::Log => "log"@,
            EmailTransport::Smtp => "smtp"@,
            EmailTransport::Sendgrid => "sendgrid"@,
            EmailTransport::Postmark => "postmark"@,
            EmailTransport::Mailgun => "mailgun"@,
            EmailTransport::Mailtrap => "mailtrap"@,
        }
    }
}

/// How the mail transport is called: "none" without a mail service, "log"
/// where mail is only logged, else as it is configured.
pub open spec fn transport_name(
    has_service: bool,
    is_log: bool,
    configured: Option<EmailTransport>,
) -> Seq<char> {
    if !has_service {
        "none"@
    } else if is_log {
        "log"@
    } else {
        match configured {
            Some(t) => t.name(),
            None => "log"@,
        }
    }
}

/// Names the mail transport.
pub fn email_transport_name(has_service: bool, is_log: bool, configured: Option<EmailTransport>) -> (r:
    String)
    ensures
        r@ == transport_name(has_service, is_log, configured),
{
    if !has_service {
        return "none".to_owned();
    }
    if is_log {
        return "log".to_owned();
    }
    match configured {
        Some(EmailTransport::Log) => "log".to_owned(),
        Some(EmailTransport::Smtp) => "smtp".to_owned(),
        Some(EmailTransport::Sendgrid) => "sendgrid".to_owned(),
        Some(EmailTransport::Postmark) => "postmark".to_owned(),
        Some(EmailTransport::Mailgun) => "mailgun".to_owned(),
        Some(EmailTransport::Mailtrap) => "mailtrap".to_owned(),
        None => "log".to_owned(),
    }
}

/// The page of the fourth step.
pub struct StepEmailTemplate {
    pub realm_name: String,
    pub configured_transport: String,
    pub admin_email: String,
    pub chrome: web::Chrome,
}

/// Shows the fourth step: the test goes to the invited user, else to the
/// signed-in one.
pub fn admin_onboarding_email_get(
    site: &web::Site,
    session: &web::UiSession,
    params: WizardStepParams,
    configured_transport: String,
) -> (r: web::Reply<StepEmailTemplate>)
    ensures
        r is Page && {
            let p = r->Page_0;
            &&& p.realm_name@ == params.realm@
            &&& p.configured_transport == configured_transport
            &&& p.admin_email@ == if params.invited@.len() == 0 {
                session.user_email@
            } else {
                params.invited@
            }
            &&& p.chrome.is_admin_page(*site, *session, "onboarding"@)
            &&& p.chrome.flash is None
        },
{
    let admin_email = if params.invited.as_str().is_empty() {
        session.user_email.clone()
    } else {
        params.invited
    };
    web::Reply::Page(
        StepEmailTemplate {
            realm_name: params.realm,
            configured_transport,
            admin_email,
            chrome: web::Chrome::admin(site, session, "onboarding"),
        },
    )
}

/// The form that sends a test mail.
pub struct EmailTestForm {
    pub recipient: String,
    pub csrf: String,
}

/// What came of a test mail.
pub struct EmailTestResultTemplate {
    pub success: bool,
    pub message: String,
}

/// What came of sending a mail.
pub enum Delivery {
    /// There is no mail service.
    NotConfigured,
    /// The transport took it.
    Sent,
    /// The transport failed.
    Failed(web::EngineError),
    /// The task that sends it failed.
    Broken,
}

/// Reads to whom the test goes, and the link that it carries.
pub fn admin_onboarding_email_test_post_request(
    csrf_ok: bool,
    form: &EmailTestForm,
    base_url: &Option<String>,
) -> (r: Result<(String, String), web::Reply<EmailTestResultTemplate>>)
    ensures
        !csrf_ok ==> r is Err && r->Err_0 is Forbidden,
        csrf_ok ==> if text::trimmed(form.recipient@).len() == 0 {
            r is Err && r->Err_0 is Page && !r->Err_0->Page_0.success
                && r->Err_0->Page_0.message@ == "Recipient email is required."@
        } else {
            r is Ok && r->Ok_0.0@ == text::trimmed(form.recipient@) && r->Ok_0.1@ == base_address(
                *base_url,
            ) + "/ui/setup?token=test-email-check"@
        },
{
    if !csrf_ok {
        return Err(web::Reply::Forbidden);
    }
    let recipient = text::trim(form.recipient.as_str());
    if recipient.as_str().is_empty() {
        return Err(
            web::Reply::Page(
                EmailTestResultTemplate {
                    success: false,
                    message: "Recipient email is required.".to_owned(),
                },
            ),
        );
    }
    Ok((recipient, base_of(base_url).concat("/ui/setup?token=test-email-check")))
}

/// Tells what came of the test.
pub fn admin_onboarding_email_test_post(recipient: &str, delivery: Delivery) -> (r: web::Reply<
    EmailTestResultTemplate,
>)
    ensures
        r is Page && {
            let p = r->Page_0;
            &&& p.success == (delivery is Sent)
            &&& p.message@ == match delivery {
                Delivery::NotConfigured =>
                    "Email service is not configured. Add an email transport to hearth.yaml."@,
                Delivery::Sent => "Test email sent to "@ + recipient@ + ". Check your inbox."@,
                Delivery::Failed(e) => "Delivery failed: "@ + e.text@,
                Delivery::Broken => "Internal error sending test email."@,
            }
        },
{
    let (success, message) = match delivery {
        Delivery::NotConfigured => (
            false,
            "Email service is not configured. Add an email transport to hearth.yaml.".to_owned(),
        ),
        Delivery::Sent => (
            true,
            "Test email sent to ".to_owned().concat(recipient).concat(". Check your inbox."),
        ),
        Delivery::Failed(e) => (
            false,
            "Delivery failed: ".to_owned().concat(e.text.as_str()),
        ),
        Delivery::Broken => (false, "Internal error sending test email.".to_owned()),
    };
    web::Reply::Page(EmailTestResultTemplate { success, message })
}

// ---------------------------------------------------------------------------
// Completion
// ---------------------------------------------------------------------------

/// The summary at the end of the wizard.
pub struct CompleteTemplate {
    pub realm_name: String,
    pub app_name: Option<String>,
    pub app_client_id: Option<String>,
    pub base_url: String,
    pub invited_email: Option<String>,
    pub chrome: web::Chrome,
}

/// Shows the summary.
pub fn admin_onboarding_complete_get(
    site: &web::Site,
    session: &web::UiSession,
    params: WizardStepParams,
    base_url: &Option<String>,
) -> (r: web::Reply<CompleteTemplate>)
    ensures
        r is Page && {
            let p = r->Page_0;
            &&& p.realm_name@ == params.realm@
            &&& text::opt_text(p.app_name) == clients::given(params.app@)
            &&& text::opt_text(p.app_client_id) == clients::given(params.client_id@)
            &&& p.base_url@ == sessions::text_or(*base_url, "http://localhost:8420"@)
            &&& text::opt_text(p.invited_email) == clients::given(params.invited@)
            &&& p.chrome.is_admin_page(*site, *session, "onboarding"@)
            &&& p.chrome.flash is None
        },
{
    web::Reply::Page(
        CompleteTemplate {
            realm_name: params.realm,
            app_name: clients::take_given(params.app.as_str()),
            app_client_id: clients::take_given(params.client_id.as_str()),
            base_url: sessions::or_default(base_url, "http://localhost:8420"),
            invited_email: clients::take_given(params.invited.as_str()),
            chrome: web::Chrome::admin(site, session, "onboarding"),
        },
    )
}

/// Where the page shows a form and an error: each part of what that says.
pub proof fn law_wizard_template_shows(
    page: WizardTemplate,
    site: web::Site,
    session: web::UiSession,
    realm_name: Seq<char>,
    display_name: Seq<char>,
    theme: Seq<char>,
    error: Option<Seq<char>>,
)
    requires
        page.shows(site, session, realm_name, display_name, theme, error),
    ensures
        text::opt_text(page.error) == error,
        page.form_realm_name@ == realm_name,
        page.form_display_name@ == display_name,
        page.form_theme@ == theme,
        page.chrome.is_admin_page(site, session, "onboarding"@),
        page.chrome.flash is None,
{
}

/// Where the page is one of the wizard, for a realm, with an error: each part of
/// what that says.
pub proof fn law_step_app_template_is_for(
    page: StepAppTemplate,
    site: web::Site,
    session: web::UiSession,
    realm_name: Seq<char>,
    error: Option<Seq<char>>,
)
    requires
        page.is_for(site, session, realm_name, error),
    ensures
        page.realm_name@ == realm_name,
        text::opt_text(page.error) == error,
        page.chrome.is_admin_page(site, session, "onboarding"@),
        page.chrome.flash is None,
{
}

/// Where the page repeats a form: each part of what that says.
pub proof fn law_step_app_template_repeats(page: StepAppTemplate, form: AppCreateWizardForm)
    requires
        page.repeats(form),
    ensures
        page.form_app_name@ == text::trimmed(form.app_name@),
        page.form_redirect_uri@ == text::trimmed(form.redirect_uri@),
        page.form_grant_authorization_code == clients::checked(form.grant_authorization_code@),
        page.form_grant_refresh_token == clients::checked(form.grant_refresh_token@),
        page.form_grant_client_credentials == clients::checked(form.grant_client_credentials@),
{
}

/// Where the page shows a form and an error: each part of what that says.
pub proof fn law_step_invite_template_shows(
    page: StepInviteTemplate,
    site: web::Site,
    session: web::UiSession,
    realm_name: Seq<char>,
    email: Seq<char>,
    role: Seq<char>,
    error: Option<Seq<char>>,
)
    requires
        page.shows(site, session, realm_name, email, role, error),
    ensures
        page.realm_name@ == realm_name,
        text::opt_text(page.error) == error,
        page.form_email@ == email,
        page.form_role@ == role,
        text::texts(page.available_roles@) == seq!["admin"@, "member"@],
        page.chrome.is_admin_page(site, session, "onboarding"@),
        page.chrome.flash is None,
{
}

/// Errors of the wizard are told in plain words, each its own.
pub proof fn law_friendly_error(e: web::EngineError)
    ensures
        e.kind is DuplicateRealmName ==> friendly_error(e)
            == "A realm with that name already exists. Choose a different name."@,
        e.kind is DuplicateEmail ==> friendly_error(e) == "A user with that email already exists."@,
        !(e.kind is DuplicateRealmName) && !(e.kind is DuplicateEmail) ==> friendly_error(e)
            == "An unexpected error occurred. Please try again."@,
{
}

/// The realm of a name is the first one that has it; there is none exactly where
/// no realm does.
pub proof fn law_realm_named(realms: Seq<sessions::RealmRef>, name: Seq<char>)
    ensures
        realm_named(realms, name) matches Some(id) ==> exists|k: int|
            {
                &&& 0 <= k < realms.len()
                &&& (#[trigger] realms[k]).name@ == name
                &&& realms[k].id == id
                &&& forall|j: int| 0 <= j < k ==> (#[trigger] realms[j]).name@ != name
            },
        realm_named(realms, name) is None <==> forall|k: int|
            0 <= k < realms.len() ==> (#[trigger] realms[k]).name@ != name,
    decreases realms.len(),
{
    if realms.len() > 0 {
        if realms[0].name@ == name {
            assert(realm_named(realms, name) == Some(realms[0].id));
        } else {
            let rest = realms.skip(1);
            law_realm_named(rest, name);
            assert forall|k: int| 0 <= k < rest.len() implies #[trigger] rest[k] == realms[k
                + 1] by {}
            if let Some(id) = realm_named(rest, name) {
                let k = choose|k: int|
                    {
                        &&& 0 <= k < rest.len()
                        &&& (#[trigger] rest[k]).name@ == name
                        &&& rest[k].id == id
                        &&& forall|j: int| 0 <= j < k ==> (#[trigger] rest[j]).name@ != name
                    };
                assert(realms[k + 1] == rest[k]);
                assert forall|j: int| 0 <= j < k + 1 implies (#[trigger] realms[j]).name@
                    != name by {
                    if j > 0 {
                        assert(rest[j - 1] == realms[j]);
                    }
                }
            } else {
                assert forall|k: int| 0 <= k < realms.len() implies (#[trigger] realms[k]).name@
                    != name by {
                    if k > 0 {
                        assert(rest[k - 1] == realms[k]);
                    }
                }
            }
        }
    }
}

/// What is left open in a form is filled in: the first theme, the role of a
/// member.
pub proof fn law_wizard_defaults(value: Seq<char>)
    ensures
        value.len() == 0 ==> selected_theme(value) == "ember"@ && invited_role(value)
            == "member"@,
        value.len() > 0 ==> selected_theme(value) == value && invited_role(value) == value,
        WIZARD_REALMS == 50,
{
}

/// A grant type is chosen exactly where its box is checked; where none is, the
/// authorization code is. None is chosen twice.
pub proof fn law_wizard_grants(code: bool, refresh: bool, credentials: bool)
    ensures
        ({
            let g = wizard_grants(code, refresh, credentials);
            let none = !code && !refresh && !credentials;
            &&& g.contains("authorization_code"@) <==> code || none
            &&& g.contains("refresh_token"@) <==> refresh
            &&& g.contains("client_credentials"@) <==> credentials
            &&& g.no_duplicates()
            &&& forall|s: Seq<char>| #[trigger]
                g.contains(s) ==> s == "authorization_code"@ || s == "refresh_token"@ || s
                    == "client_credentials"@
        }),
{
    reveal_strlit("authorization_code");
    reveal_strlit("client_credentials");
    reveal_strlit("refresh_token");
    let a = "authorization_code"@;
    let b = "refresh_token"@;
    let c = "client_credentials"@;
    assert(a[0] == 'a' && b[0] == 'r' && c[0] == 'c');
    let g = wizard_grants(code, refresh, credentials);
    if !code && !refresh && !credentials {
        assert(g[0] == a);
    } else {
        let n1 = if code {
            1int
        } else {
            0int
        };
        let n2 = if refresh {
            n1 + 1
        } else {
            n1
        };
        if code {
            assert(g[0] == a);
        }
        if refresh {
            assert(g[n1] == b);
        }
        if credentials {
            assert(g[n2] == c);
        }
    }
}

proof fn lemma_encoded(prefix: Seq<char>, value: Seq<char>)
    requires
        !prefix.contains('&'),
    ensures
        !(prefix + codec::query_value(value)).contains('&'),
        text::has_prefix(prefix + codec::query_value(value), prefix),
        (prefix + codec::query_value(value)).skip(prefix.len() as int) == codec::query_value(value),
{
    let v = codec::query_value(value);
    let p = prefix + v;
    codec::law_encoded_is_safe(vstd::utf8::encode_utf8(value));
    if p.contains('&') {
        let i = choose|i: int| 0 <= i < p.len() && p[i] == '&';
        if i < prefix.len() {
            assert(prefix[i] == '&');
        } else {
            assert(codec::is_query_safe(v[i - prefix.len()]));
        }
    }
    assert(p.subrange(0, prefix.len() as int) =~= prefix);
    assert(p.skip(prefix.len() as int) =~= v);
}

proof fn lemma_other_prefix(piece: Seq<char>, prefix: Seq<char>)
    requires
        piece.len() > 0,
        prefix.len() > 0,
        piece[0] != prefix[0],
    ensures
        !text::has_prefix(piece, prefix),
{
    if text::has_prefix(piece, prefix) {
        assert(piece.subrange(0, prefix.len() as int)[0] == piece[0]);
    }
}

/// What one step of the wizard knows, the next one reads from its address: the
/// realm, the application's identifier and its name, each under its own key.
pub proof fn law_invite_address(realm: Seq<char>, client_id: Seq<char>, app: Seq<char>)
    ensures
        ({
            let address = invite_address(realm, client_id, app);
            let page = "/ui/admin/onboarding/invite"@;
            let pieces = query::params_of(address.skip((page.len() + 1) as int));
            &&& text::has_prefix(address, page + "?"@)
            &&& query::value_after(pieces, "realm="@) == Some(codec::query_value(realm))
            &&& query::value_after(pieces, "client_id="@) == Some(codec::query_value(client_id))
            &&& query::value_after(pieces, "app="@) == Some(codec::query_value(app))
            &&& codec::form_decoded(codec::query_value(realm)) == vstd::utf8::encode_utf8(realm)
        }),
{
    let a = "realm="@ + codec::query_value(realm);
    let b = "client_id="@ + codec::query_value(client_id);
    let c = "app="@ + codec::query_value(app);
    let pieces = seq![a, b, c];
    lemma_invite_text(realm, client_id, app);
    codec::law_query_value_round_trip(realm);
    lemma_wizard_pieces(pieces);
    lemma_encoded("realm="@, realm);
    lemma_encoded("client_id="@, client_id);
    lemma_encoded("app="@, app);
    query::lemma_params(pieces);
    query::law_value_after(pieces, "realm="@, 0);
    query::law_value_after(pieces, "client_id="@, 1);
    query::law_value_after(pieces, "app="@, 2);
}

proof fn lemma_invite_text(realm: Seq<char>, client_id: Seq<char>, app: Seq<char>)
    ensures
        ({
            let address = invite_address(realm, client_id, app);
            let page = "/ui/admin/onboarding/invite"@;
            let pieces = seq![
                "realm="@ + codec::query_value(realm),
                "client_id="@ + codec::query_value(client_id),
                "app="@ + codec::query_value(app),
            ];
            &&& text::has_prefix(address, page + "?"@)
            &&& address.skip((page.len() + 1) as int) == text::joined(pieces, seq!['&'])
        }),
{
    reveal_strlit("/ui/admin/onboarding/invite?realm=");
    reveal_strlit("/ui/admin/onboarding/invite");
    reveal_strlit("?");
    reveal_strlit("realm=");
    reveal_strlit("client_id=");
    reveal_strlit("app=");
    reveal_strlit("&client_id=");
    reveal_strlit("&app=");
    let address = invite_address(realm, client_id, app);
    let page = "/ui/admin/onboarding/invite"@;
    let a = "realm="@ + codec::query_value(realm);
    let b = "client_id="@ + codec::query_value(client_id);
    let c = "app="@ + codec::query_value(app);
    let pieces = seq![a, b, c];
    assert(pieces.drop_last() =~= seq![a, b]);
    assert(pieces.drop_last().drop_last() =~= seq![a]);
    reveal_with_fuel(text::joined, 4);
    assert(text::joined(pieces, seq!['&']) == a + seq!['&'] + b + seq!['&'] + c);
    assert("/ui/admin/onboarding/invite?realm="@ =~= page + "?"@ + "realm="@);
    assert("&client_id="@ =~= seq!['&'] + "client_id="@);
    assert("&app="@ =~= seq!['&'] + "app="@);
    assert(address =~= page + "?"@ + (a + seq!['&'] + b + seq!['&'] + c));
    assert(address.skip((page.len() + 1) as int) =~= a + seq!['&'] + b + seq!['&'] + c);
    assert(address.subrange(0, (page + "?"@).len() as int) =~= page + "?"@);
}

/// The keys of the wizard start with different letters.
proof fn lemma_wizard_pieces(pieces: Seq<Seq<char>>)
    ensures
        "realm="@.len() == 6 && "realm="@[0] == 'r' && !"realm="@.contains('&'),
        "invited="@.len() == 8 && "invited="@[0] == 'i' && !"invited="@.contains('&'),
        "client_id="@.len() == 10 && "client_id="@[0] == 'c' && !"client_id="@.contains('&'),
        "app="@.len() == 4 && "app="@[0] == 'a' && !"app="@.contains('&'),
        forall|k: int|
            0 <= k < pieces.len() && (#[trigger] pieces[k]).len() > 0 ==> {
                &&& pieces[k][0] != 'r' ==> !text::has_prefix(pieces[k], "realm="@)
                &&& pieces[k][0] != 'i' ==> !text::has_prefix(pieces[k], "invited="@)
                &&& pieces[k][0] != 'c' ==> !text::has_prefix(pieces[k], "client_id="@)
                &&& pieces[k][0] != 'a' ==> !text::has_prefix(pieces[k], "app="@)
            },
{
    reveal_strlit("realm=");
    reveal_strlit("invited=");
    reveal_strlit("client_id=");
    reveal_strlit("app=");
    assert forall|k: int| 0 <= k < pieces.len() && (#[trigger] pieces[k]).len() > 0 implies {
        &&& pieces[k][0] != 'r' ==> !text::has_prefix(pieces[k], "realm="@)
        &&& pieces[k][0] != 'i' ==> !text::has_prefix(pieces[k], "invited="@)
        &&& pieces[k][0] != 'c' ==> !text::has_prefix(pieces[k], "client_id="@)
        &&& pieces[k][0] != 'a' ==> !text::has_prefix(pieces[k], "app="@)
    } by {
        if pieces[k][0] != 'r' {
            lemma_other_prefix(pieces[k], "realm="@);
        }
        if pieces[k][0] != 'i' {
            lemma_other_prefix(pieces[k], "invited="@);
        }
        if pieces[k][0] != 'c' {
            lemma_other_prefix(pieces[k], "client_id="@);
        }
        if pieces[k][0] != 'a' {
            lemma_other_prefix(pieces[k], "app="@);
        }
    }
}

/// The last step reads from its address the realm, the invited address and the
/// application, each under its own key.
pub proof fn law_email_address(
    realm: Seq<char>,
    invited: Seq<char>,
    client_id: Seq<char>,
    app: Seq<char>,
)
    ensures
        ({
            let address = email_address(realm, invited, client_id, app);
            let page = "/ui/admin/onboarding/email"@;
            let pieces = query::params_of(address.skip((page.len() + 1) as int));
            &&& text::has_prefix(address, page + "?"@)
            &&& query::value_after(pieces, "realm="@) == Some(codec::query_value(realm))
            &&& query::value_after(pieces, "invited="@) == Some(codec::query_value(invited))
            &&& query::value_after(pieces, "client_id="@) == Some(codec::query_value(client_id))
            &&& query::value_after(pieces, "app="@) == Some(codec::query_value(app))
        }),
{
    let a = "realm="@ + codec::query_value(realm);
    let b = "invited="@ + codec::query_value(invited);
    let c = "client_id="@ + codec::query_value(client_id);
    let d = "app="@ + codec::query_value(app);
    let pieces = seq![a, b, c, d];
    lemma_email_text(realm, invited, client_id, app);
    lemma_wizard_pieces(pieces);
    lemma_encoded("realm="@, realm);
    lemma_encoded("invited="@, invited);
    lemma_encoded("client_id="@, client_id);
    lemma_encoded("app="@, app);
    query::lemma_params(pieces);
    query::law_value_after(pieces, "realm="@, 0);
    query::law_value_after(pieces, "invited="@, 1);
    query::law_value_after(pieces, "client_id="@, 2);
    query::law_value_after(pieces, "app="@, 3);
}

proof fn lemma_email_text(
    realm: Seq<char>,
    invited: Seq<char>,
    client_id: Seq<char>,
    app: Seq<char>,
)
    ensures
        ({
            let address = email_address(realm, invited, client_id, app);
            let page = "/ui/admin/onboarding/email"@;
            let pieces = seq![
                "realm="@ + codec::query_value(realm),
                "invited="@ + codec::query_value(invited),
                "client_id="@ + codec::query_value(client_id),
                "app="@ + codec::query_value(app),
            ];
            &&& text::has_prefix(address, page + "?"@)
            &&& address.skip((page.len() + 1) as int) == text::joined(pieces, seq!['&'])
        }),
{
    reveal_strlit("/ui/admin/onboarding/email?realm=");
    reveal_strlit("/ui/admin/onboarding/email");
    reveal_strlit("?");
    reveal_strlit("realm=");
    reveal_strlit("invited=");
    reveal_strlit("client_id=");
    reveal_strlit("app=");
    reveal_strlit("&invited=");
    reveal_strlit("&client_id=");
    reveal_strlit("&app=");
    let address = email_address(realm, invited, client_id, app);
    let page = "/ui/admin/onboarding/email"@;
    let a = "realm="@ + codec::query_value(realm);
    let b = "invited="@ + codec::query_value(invited);
    let c = "client_id="@ + codec::query_value(client_id);
    let d = "app="@ + codec::query_value(app);
    let pieces = seq![a, b, c, d];
    assert(pieces.drop_last() =~= seq![a, b, c]);
    assert(pieces.drop_last().drop_last() =~= seq![a, b]);
    assert(pieces.drop_last().drop_last().drop_last() =~= seq![a]);
    reveal_with_fuel(text::joined, 5);
    let whole = a + seq!['&'] + b + seq!['&'] + c + seq!['&'] + d;
    assert(text::joined(pieces, seq!['&']) == whole);
    assert("/ui/admin/onboarding/email?realm="@ =~= page + "?"@ + "realm="@);
    assert("&invited="@ =~= seq!['&'] + "invited="@);
    assert("&client_id="@ =~= seq!['&'] + "client_id="@);
    assert("&app="@ =~= seq!['&'] + "app="@);
    assert(address =~= page + "?"@ + whole);
    assert(address.skip((page.len() + 1) as int) =~= whole);
    assert(address.subrange(0, (page + "?"@).len() as int) =~= page + "?"@);
}

/// What keeps the role of an administrator from being given is told, the first
/// obstacle before the others; where there is none, nothing is.
pub proof fn law_role_obstacle(
    seeded: Result<(), web::EngineError>,
    role: Result<Option<u128>, web::EngineError>,
)
    ensures
        seeded matches Err(e) ==> role_obstacle(seeded, role) == Some(
            "Failed to initialise realm roles: "@ + e.text@,
        ),
        seeded is Ok ==> (role matches Err(e) ==> role_obstacle(seeded, role) == Some(
            "Failed to look up realm.admin role: "@ + e.text@,
        )),
        seeded is Ok ==> (role matches Ok(None) ==> role_obstacle(seeded, role) == Some(
            "Role 'realm.admin' missing after seed — please contact support"@,
        )),
        role_obstacle(seeded, role) is None <==> seeded is Ok && role is Ok && role->Ok_0 is Some,
{
}

/// The base of a link is the address of the installation without slashes at its
/// end.
pub proof fn law_base_address(base_url: Option<String>)
    ensures
        ({
            let given = match base_url {
                Some(b) => b@,
                None => "http://localhost:8420"@,
            };
            let base = base_address(base_url);
            &&& text::has_prefix(given, base)
            &&& base.len() > 0 ==> base.last() != '/'
            &&& forall|i: int| base.len() <= i < given.len() ==> #[trigger] given[i] == '/'
        }),
{
    let given = sessions::text_or(base_url, "http://localhost:8420"@);
    text::law_without_trailing(given, '/');
    assert(given.subrange(0, base_address(base_url).len() as int) =~= given.take(
        base_address(base_url).len() as int,
    ));
}

/// The transport goes by its own name; without a service there is none, and what
/// only logs is told as that.
pub proof fn law_transport_name(has_service: bool, is_log: bool, configured: Option<EmailTransport>)
    ensures
        !has_service ==> transport_name(has_service, is_log, configured) == "none"@,
        has_service && is_log ==> transport_name(has_service, is_log, configured) == "log"@,
        has_service && configured is None ==> transport_name(has_service, is_log, configured)
            == "log"@,
        has_service && !is_log && configured == Some(EmailTransport::Log) ==> transport_name(
            has_service,
            is_log,
            configured,
        ) == "log"@,
        has_service && !is_log && configured == Some(EmailTransport::Smtp) ==> transport_name(
            has_service,
            is_log,
            configured,
        ) == "smtp"@,
        has_service && !is_log && configured == Some(EmailTransport::Sendgrid) ==> transport_name(
            has_service,
            is_log,
            configured,
        ) == "sendgrid"@,
        has_service && !is_log && configured == Some(EmailTransport::Postmark) ==> transport_name(
            has_service,
            is_log,
            configured,
        ) == "postmark"@,
        has_service && !is_log && configured == Some(EmailTransport::Mailgun) ==> transport_name(
            has_service,
            is_log,
            configured,
        ) == "mailgun"@,
        has_service && !is_log && configured == Some(EmailTransport::Mailtrap) ==> transport_name(
            has_service,
            is_log,
            configured,
        ) == "mailtrap"@,
{
}

} // verus!
