use hearth_web::clients;
use hearth_web::clients::{AppCreateForm, AppEditForm, AppEditTemplate, AppNewTemplate, ClientTrustLevel, OAuthClient};
use hearth_web::onboarding;
use hearth_web::onboarding::{
    AppCreateWizardForm, Delivery, EmailTestForm, EmailTransport, InviteRequest, InviteWizardForm, RealmCreateForm,
    WizardStepParams,
};
use hearth_web::sessions::{Page, RealmRef};
use hearth_web::users::RoleAction;
use hearth_web::web;
use hearth_web::web::{AuditAction, EngineError, ErrorKind, Reply, Routes, TargetRealm};

fn session() -> web::UiSession {
    web::UiSession {
        realm_id: 7,
        user_id: 2,
        session_id: 3,
        user_email: "ada@example.com".to_string(),
        csrf: Some("t".to_string()),
    }
}

fn site() -> web::Site {
    web::Site {
        product_name: "Hearth".to_string(),
        logo_url: "/logo.svg".to_string(),
        theme_css: "css".to_string(),
        realm_theme_css: None,
    }
}

fn uuid(n: u128) -> String {
    uuid::Uuid::from_u128(n).to_string()
}

fn fails<T>(kind: ErrorKind) -> Result<T, EngineError> {
    Err(EngineError { kind, text: "boom".to_string() })
}

fn target() -> TargetRealm {
    TargetRealm { id: 7, name: "acme".to_string(), routes: Routes::Flat }
}

fn app() -> OAuthClient {
    OAuthClient {
        id: 4,
        client_name: "Wiki".to_string(),
        slug: "wiki".to_string(),
        redirect_uris: vec!["https://a/cb".to_string(), "https://b/cb".to_string()],
        grant_types: vec!["authorization_code".to_string(), "refresh_token".to_string()],
        trust_level: ClientTrustLevel::ThirdParty,
        require_consent: true,
        declared_scopes: vec!["openid".to_string(), "email".to_string()],
        client_logo_url: None,
    }
}

fn on(b: bool) -> String {
    if b { "1".to_string() } else { String::new() }
}

fn create_form(client_type: &str) -> AppCreateForm {
    AppCreateForm {
        client_name: "Wiki".to_string(),
        slug: "wiki".to_string(),
        client_type: client_type.to_string(),
        redirect_uris: " https://a/cb \n\nhttps://b/cb\n".to_string(),
        grant_authorization_code: on(true),
        grant_client_credentials: on(false),
        grant_refresh_token: on(true),
        grant_device_code: on(false),
        trust_level: ClientTrustLevel::FirstParty.label(),
        require_consent: on(false),
        declared_scopes: "openid  email".to_string(),
        client_logo_url: String::new(),
        csrf: "t".to_string(),
    }
}

#[test]
fn apps_are_listed_and_shown() {
    match clients::admin_apps_list(&site(), &session(), &target(), Ok(Page { items: vec![app()], next_cursor: None })) {
        Reply::Page(p) => assert!(p.applications.len() == 1 && p.realm_name == "acme"),
        _ => panic!("no page"),
    }
    assert!(matches!(
        clients::admin_app_detail(&site(), &session(), &target(), Ok(Some(app()))),
        Reply::Page(p) if p.client_secret.is_none() && p.app.id == 4
    ));
    assert!(matches!(clients::admin_app_detail(&site(), &session(), &target(), Ok(None)), Reply::NotFound(_)));
    let fresh = clients::admin_app_regenerate_secret(&site(), &session(), &target(), 4, Ok("s3".to_string()), Some(app()));
    assert!(matches!(fresh.reply, Reply::Page(p) if p.client_secret == Some("s3".to_string())));
    assert_eq!(fresh.events.len(), 1);
}

#[test]
fn forms_become_registrations() {
    let r = clients::registration(&create_form("confidential"), 5);
    assert_eq!(r.client_secret, Some(uuid(5)));
    assert_eq!(r.redirect_uris, ["https://a/cb", "https://b/cb"]);
    assert_eq!(r.grant_types, ["authorization_code", "refresh_token"]);
    assert_eq!(r.declared_scopes, ["openid", "email"]);
    assert_eq!(r.slug, Some("wiki".to_string()));
    assert_eq!(r.client_logo_url, None);
    assert!(r.trust_level == ClientTrustLevel::FirstParty && !r.require_consent);
    assert_eq!(clients::registration(&create_form("public"), 5).client_secret, None);
}

#[test]
fn confidential_clients_get_random_secrets() {
    let a = clients::parse_app_create_form(&create_form("confidential")).client_secret.unwrap();
    let b = clients::parse_app_create_form(&create_form("confidential")).client_secret.unwrap();
    assert_ne!(a, b);
    assert_eq!(uuid::Uuid::parse_str(&a).unwrap().get_version_num(), 4);
    assert_eq!(clients::parse_app_create_form(&create_form("public")).client_secret, None);
}

#[test]
fn apps_are_registered() {
    let form = create_form("public");
    let done = clients::admin_app_create_submit(&site(), &session(), &target(), &form, false, Ok(4));
    assert!(done.events[0].action == AuditAction::ClientRegistered);
    assert!(matches!(done.reply, Reply::Redirect(u) if u.contains(&uuid(4))));
    let failed = clients::admin_app_create_submit(&site(), &session(), &target(), &form, false, fails(ErrorKind::InvalidInput("bad".to_string())));
    assert!(failed.events.is_empty());
    match failed.reply {
        Reply::Page(p) => {
            assert_eq!(p.error, Some("bad".to_string()));
            assert_eq!(p.form.client_name, "Wiki");
            assert!(p.form.grant_authorization_code && !p.form.grant_device_code);
        }
        _ => panic!("no page"),
    }
    let failed = clients::admin_app_create_submit(&site(), &session(), &target(), &form, false, fails(ErrorKind::Other));
    assert!(matches!(
        failed.reply,
        Reply::Page(p) if p.error == Some("Unable to register application right now.".to_string()) && p.form.client_name.is_empty()
    ));
    let blank = AppNewTemplate::blank("acme", &session(), &site());
    assert!(blank.error.is_none() && blank.form.client_name.is_empty());
}

fn edit_page(app: OAuthClient) -> AppEditTemplate {
    match clients::admin_app_edit_form(&site(), &session(), &target(), Ok(Some(app))) {
        Reply::Page(p) => p,
        _ => panic!("no page"),
    }
}

#[test]
fn unchanged_edit_forms_change_nothing() {
    let shown = edit_page(app());
    let f = &shown.form;
    let form = AppEditForm {
        client_name: f.client_name.clone(),
        slug: f.slug.clone(),
        redirect_uris: f.redirect_uris.clone(),
        grant_authorization_code: on(f.grant_authorization_code),
        grant_client_credentials: on(f.grant_client_credentials),
        grant_refresh_token: on(f.grant_refresh_token),
        grant_device_code: on(f.grant_device_code),
        trust_level: f.trust_level.clone(),
        require_consent: on(f.require_consent),
        declared_scopes: f.declared_scopes.clone(),
        client_logo_url: f.client_logo_url.clone(),
        csrf: "t".to_string(),
    };
    match clients::admin_app_edit_submit_request(true, &uuid(4), &form) {
        Ok(r) => {
            let a = app();
            assert_eq!(r.client_id, 4);
            assert_eq!(r.client_name, Some(a.client_name));
            assert_eq!(r.redirect_uris, a.redirect_uris);
            assert_eq!(r.grant_types, a.grant_types);
            assert_eq!(r.declared_scopes, a.declared_scopes);
            assert!(r.trust_level == a.trust_level && r.require_consent == a.require_consent);
            assert_eq!(r.slug, Some(a.slug));
        }
        Err(_) => panic!("refused"),
    }
    assert!(matches!(clients::admin_app_edit_submit_request(false, &uuid(4), &form), Err(Reply::Forbidden)));
    let done = clients::admin_app_edit_submit(&site(), &session(), &target(), 4, &form, Ok(()), Some(app()));
    assert!(done.events[0].action == AuditAction::ClientUpdated);
    let failed = clients::admin_app_edit_submit(&site(), &session(), &target(), 4, &form, fails(ErrorKind::InvalidInput("bad".to_string())), Some(app()));
    assert!(failed.events.is_empty() && matches!(failed.reply, Reply::Page(p) if p.error == Some("bad".to_string())));
    let failed = clients::admin_app_edit_submit(&site(), &session(), &target(), 4, &form, fails(ErrorKind::Other), Some(app()));
    assert!(matches!(failed.reply, Reply::ServerError));
}

#[test]
fn grants_come_back() {
    assert_eq!(clients::select_grants(false, false, false, false), ["authorization_code"]);
    for n in 1..16u8 {
        let (a, b, c, d) = (n & 1 > 0, n & 2 > 0, n & 4 > 0, n & 8 > 0);
        let grants = clients::select_grants(a, b, c, d);
        let mut client = app();
        client.grant_types = grants;
        let f = edit_page(client).form;
        assert_eq!(
            (f.grant_authorization_code, f.grant_client_credentials, f.grant_refresh_token, f.grant_device_code),
            (a, b, c, d)
        );
    }
}

#[test]
fn trust_levels_come_back() {
    for level in [ClientTrustLevel::FirstParty, ClientTrustLevel::ThirdParty] {
        let mut form = create_form("public");
        form.trust_level = level.label();
        assert!(clients::registration(&form, 0).trust_level == level);
    }
}

#[test]
fn apps_are_deleted() {
    let done = clients::admin_app_delete(&session(), &target(), 4, Ok(()));
    assert!(done.events[0].action == AuditAction::ClientDeleted);
    let failed = clients::admin_app_delete(&session(), &target(), 4, fails(ErrorKind::Other));
    assert!(failed.events.is_empty() && matches!(failed.reply, Reply::ServerError));
}

fn step(realm: &str) -> WizardStepParams {
    WizardStepParams { realm: realm.to_string(), client_id: "c1".to_string(), invited: String::new(), app: "Wiki".to_string() }
}

#[test]
fn the_wizard_creates_a_realm() {
    let form = |name: &str| RealmCreateForm {
        display_name: "Acme".to_string(),
        realm_name: name.to_string(),
        theme: String::new(),
        csrf: "t".to_string(),
    };
    assert!(matches!(onboarding::admin_onboarding_realm_post_request(false, &site(), &session(), &form("acme")), Err(Reply::Forbidden)));
    assert!(matches!(
        onboarding::admin_onboarding_realm_post_request(true, &site(), &session(), &form(" ")),
        Err(Reply::Page(p)) if p.error.is_some()
    ));
    let request = match onboarding::admin_onboarding_realm_post_request(true, &site(), &session(), &form(" acme ")) {
        Ok(r) => r,
        Err(_) => panic!("refused"),
    };
    assert_eq!(request.name, "acme");
    assert!(matches!(onboarding::admin_onboarding_realm_post(&site(), &session(), request, Ok(())), Reply::Redirect(u) if u.contains("acme")));
}

#[test]
fn realms_are_found_by_name() {
    let realms = vec![RealmRef { id: 1, name: "a".to_string() }, RealmRef { id: 2, name: "b".to_string() }];
    assert_eq!(onboarding::resolve_realm_by_name(&realms, "b"), Some(2));
    assert_eq!(onboarding::resolve_realm_by_name(&realms, "c"), None);
}

#[test]
fn the_wizard_registers_an_app() {
    let form = |name: &str| AppCreateWizardForm {
        realm: "acme".to_string(),
        app_name: name.to_string(),
        redirect_uri: "https://a/cb".to_string(),
        grant_authorization_code: on(true),
        grant_refresh_token: on(true),
        grant_client_credentials: on(false),
        csrf: "t".to_string(),
    };
    assert!(matches!(
        onboarding::admin_onboarding_app_post_check(true, &site(), &session(), &form(" ")),
        Err(Reply::Page(p)) if p.error.is_some()
    ));
    let request = onboarding::admin_onboarding_app_post_request(&form("Wiki"));
    assert_eq!(request.grant_types, ["authorization_code", "refresh_token"]);
    assert_eq!(request.redirect_uris, ["https://a/cb"]);
    assert!(matches!(
        onboarding::admin_onboarding_app_post(&site(), &session(), &form("Wiki"), Ok(4)),
        Reply::Redirect(u) if u.contains(&uuid(4))
    ));
    assert!(matches!(onboarding::admin_onboarding_app_get(&site(), &session(), step("acme")), Reply::Page(p) if p.realm_name == "acme"));
}

#[test]
fn the_wizard_invites_somebody() {
    let form = |email: &str, role: &str| InviteWizardForm {
        realm: "acme".to_string(),
        client_id: "c 1".to_string(),
        app: "Wiki".to_string(),
        email: email.to_string(),
        role: role.to_string(),
        csrf: "t".to_string(),
    };
    assert!(matches!(
        onboarding::admin_onboarding_invite_post_request(true, &site(), &session(), &form("", "")),
        Err(_)
    ));
    let request = match onboarding::admin_onboarding_invite_post_request(true, &site(), &session(), &form("x@y.z", "realm.admin")) {
        Ok(r) => r,
        Err(_) => panic!("refused"),
    };
    assert_eq!(onboarding::admin_onboarding_invite_post_user(&request).email, "x@y.z");
    assert!(matches!(
        onboarding::admin_onboarding_invite_post_role(&site(), &session(), &request, 9, Ok(()), Ok(Some(11))),
        Ok(RoleAction::Assign { user_id: 9, role_id: 11, .. })
    ));
    assert!(onboarding::admin_onboarding_invite_post_role(&site(), &session(), &request, 9, Ok(()), Ok(None)).is_err());
    let base = Some("https://id.example.com/".to_string());
    let link = onboarding::admin_onboarding_invite_post_link(&request, &base, "tok");
    assert!(link.starts_with("https://id.example.com/ui/") && link.contains("tok"));
    assert!(matches!(
        onboarding::admin_onboarding_invite_post(&request, &form("x@y.z", "realm.admin")),
        Reply::Redirect(u) if u.contains("x%40y.z")
    ));
}

#[test]
fn the_wizard_tests_mail() {
    assert_eq!(onboarding::email_transport_name(true, false, Some(EmailTransport::Smtp)), "smtp");
    let form = |r: &str| EmailTestForm { recipient: r.to_string(), csrf: "t".to_string() };
    assert!(matches!(
        onboarding::admin_onboarding_email_test_post_request(true, &form(" "), &None),
        Err(Reply::Page(p)) if !p.success && p.message == "Recipient email is required."
    ));
    assert!(matches!(
        onboarding::admin_onboarding_email_test_post("x@y", Delivery::Sent),
        Reply::Page(p) if p.success && p.message == "Test email sent to x@y. Check your inbox."
    ));
    let e = EngineError { kind: ErrorKind::Other, text: "boom".to_string() };
    assert!(matches!(
        onboarding::admin_onboarding_email_test_post("x@y", Delivery::Failed(e)),
        Reply::Page(p) if !p.success && p.message == "Delivery failed: boom"
    ));
    assert!(matches!(
        onboarding::admin_onboarding_complete_get(&site(), &session(), step("acme"), &None),
        Reply::Page(p) if p.realm_name == "acme" && p.app_name == Some("Wiki".to_string()) && p.invited_email.is_none()
    ));
}

#[test]
fn requests_name_an_application() {
    assert!(matches!(clients::app_request(&uuid(4)), Ok(4)));
    assert!(matches!(clients::app_request("4"), Err(Reply::NotFound(m)) if m == "Application not found"));
    assert!(matches!(clients::app_action_request(true, &uuid(4)), Ok(4)));
    assert!(matches!(clients::app_action_request(false, &uuid(4)), Err(Reply::Forbidden)));
}

#[test]
fn application_forms_start_from_the_application() {
    assert!(matches!(
        clients::admin_app_create_form(&site(), &session(), &target()),
        Reply::Page(p) if p.error.is_none() && p.form.client_name.is_empty() && p.realm_name == "acme"
    ));
    let p = AppEditTemplate::from_client(app(), "acme", &session(), &site());
    assert_eq!(p.form.redirect_uris, "https://a/cb\nhttps://b/cb");
    assert_eq!(p.form.declared_scopes, "openid email");
    assert!(p.form.grant_refresh_token && !p.form.grant_device_code);
    assert_eq!(clients::take_given(""), None);
    assert_eq!(clients::take_given("x"), Some("x".to_string()));
}

fn invited_step(invited: &str) -> WizardStepParams {
    WizardStepParams {
        realm: "acme".to_string(),
        client_id: String::new(),
        invited: invited.to_string(),
        app: String::new(),
    }
}

#[test]
fn the_wizard_is_shown_where_it_is_needed() {
    assert!(matches!(onboarding::admin_onboarding_get(&site(), &session(), Ok(false)), Reply::Redirect(u) if u == "/ui"));
    assert!(matches!(
        onboarding::admin_onboarding_get(&site(), &session(), Ok(true)),
        Reply::Page(p) if p.form_theme == "ember" && p.error.is_none()
    ));
    assert!(matches!(onboarding::admin_onboarding_get(&site(), &session(), fails(ErrorKind::Other)), Reply::ServerError));
    let realms = Some(vec![RealmRef { id: 7, name: "acme".to_string() }]);
    assert!(matches!(onboarding::wizard_realm::<()>(&realms, "acme"), Ok(7)));
    assert!(matches!(onboarding::wizard_realm::<()>(&realms, "other"), Err(Reply::NotFound(m)) if m == "Realm not found"));
    assert!(matches!(onboarding::wizard_realm::<()>(&None, "acme"), Err(Reply::NotFound(_))));
}

#[test]
fn invitations_tell_what_failed() {
    assert!(matches!(
        onboarding::admin_onboarding_invite_get(&site(), &session(), invited_step("")),
        Reply::Page(p) if p.realm_name == "acme" && p.form_role == "admin" && p.form_email.is_empty()
    ));
    let request = |role: &str| InviteRequest {
        realm_name: "acme".to_string(),
        email: "eve@example.com".to_string(),
        role: role.to_string(),
    };
    assert!(matches!(
        onboarding::admin_onboarding_invite_post_created(&site(), &session(), &request("admin"), Ok(9)),
        Ok((9, true))
    ));
    assert!(matches!(
        onboarding::admin_onboarding_invite_post_created(&site(), &session(), &request("user"), Ok(9)),
        Ok((9, false))
    ));
    assert!(matches!(
        onboarding::admin_onboarding_invite_post_created(
            &site(),
            &session(),
            &request("user"),
            fails(ErrorKind::DuplicateEmail)
        ),
        Err(Reply::Page(p)) if p.error == Some("A user with that email already exists.".to_string())
    ));
    assert!(onboarding::admin_onboarding_invite_post_assigned(&site(), &session(), &request("admin"), Ok(())).is_ok());
    assert!(matches!(
        onboarding::admin_onboarding_invite_post_assigned(&site(), &session(), &request("admin"), fails(ErrorKind::Other)),
        Err(Reply::Page(p)) if p.error == Some("Failed to assign admin role: boom".to_string())
    ));
    let other = EngineError { kind: ErrorKind::Other, text: "boom".to_string() };
    assert_eq!(onboarding::friendly_identity_error(&other), "An unexpected error occurred. Please try again.");
}

#[test]
fn the_test_message_goes_to_the_invited_user() {
    let shown = |invited: &str| match onboarding::admin_onboarding_email_get(&site(), &session(), invited_step(invited), "smtp".to_string()) {
        Reply::Page(p) => (p.admin_email, p.configured_transport),
        _ => panic!("no page"),
    };
    assert_eq!(shown("eve@example.com"), ("eve@example.com".to_string(), "smtp".to_string()));
    assert_eq!(shown("").0, "ada@example.com");
}

#[test]
fn registrations_need_the_token() {
    assert!(matches!(
        clients::admin_app_create_submit_request(false, &create_form("public")),
        Err(Reply::Forbidden)
    ));
    match clients::admin_app_create_submit_request(true, &create_form("confidential")) {
        Ok(q) => {
            assert_eq!(q.client_name, "Wiki");
            let secret = uuid::Uuid::parse_str(&q.client_secret.unwrap()).unwrap();
            assert_eq!(secret.get_version_num(), 4);
        }
        Err(_) => panic!("refused"),
    }
    assert!(matches!(
        clients::admin_app_create_submit_request(true, &create_form("public")),
        Ok(q) if q.client_secret.is_none()
    ));
}
