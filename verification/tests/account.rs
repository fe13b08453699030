use hearth_web::account;
use hearth_web::account::{
    AccountRecords, ActivateTotpForm, ChangePasswordForm, PasskeyRegisterCompleteBody, RegistrationStart, TotpEnrollment,
};
use hearth_web::consents;
use hearth_web::consents::ConsentEntry;
use hearth_web::linked;
use hearth_web::linked::LinkedIdentity;
use hearth_web::users::{Credential, User, UserStatus};
use hearth_web::web;
use hearth_web::web::{AuditAction, EngineError, ErrorKind, FlashKind, Meta, Reply, Routes, TargetRealm};

fn session() -> web::UiSession {
    web::UiSession {
        realm_id: 7,
        user_id: 2,
        session_id: 3,
        user_email: "ada@example.com".to_string(),
        csrf: Some("t".to_string()),
    }
}

fn site() -> web::Site {
    web::Site {
        product_name: "Hearth".to_string(),
        logo_url: "/logo.svg".to_string(),
        theme_css: "css".to_string(),
        realm_theme_css: Some("realm".to_string()),
    }
}

fn uuid(n: u128) -> String {
    uuid::Uuid::from_u128(n).to_string()
}

fn fails<T>(kind: ErrorKind) -> Result<T, EngineError> {
    Err(EngineError { kind, text: "boom".to_string() })
}

fn records(mfa: bool) -> AccountRecords {
    AccountRecords {
        mfa_enabled: Ok(mfa),
        credentials: Ok(vec![Credential { id_b64url: "0123456789abcdef0".to_string(), algorithm: -7, discoverable: true }]),
        is_admin: false,
    }
}

fn op(e: &web::AuditEvent) -> String {
    e.metadata.iter().find(|(k, _)| k == "op").map_or(String::new(), |(_, v)| match v {
        Meta::Text(t) => t.clone(),
        Meta::Flag(_) => String::new(),
    })
}

#[test]
fn the_account_is_shown() {
    match account::account_index(&site(), &session(), &records(true)) {
        Reply::Page(p) => {
            assert!(p.mfa_enabled && p.password_error.is_none() && p.chrome.narrow && !p.chrome.is_admin);
            assert_eq!(p.passkey_credentials[0].id_short, "0123456789abcdef...");
            assert_eq!(p.chrome.realm_theme_css, Some("realm".to_string()));
        }
        _ => panic!("no page"),
    }
    let broken = AccountRecords { mfa_enabled: fails(ErrorKind::Other), credentials: fails(ErrorKind::Other), is_admin: true };
    assert!(matches!(
        account::account_index(&site(), &session(), &broken),
        Reply::Page(p) if !p.mfa_enabled && p.passkey_credentials.is_empty() && p.chrome.is_admin
    ));
}

fn password_form(confirm: &str) -> ChangePasswordForm {
    ChangePasswordForm {
        current_password: "old".to_string(),
        new_password: "new".to_string(),
        confirm_password: confirm.to_string(),
        csrf: "t".to_string(),
    }
}

#[test]
fn passwords_are_changed() {
    let r = records(false);
    assert!(matches!(
        account::account_change_password_request(&site(), &session(), true, password_form("new"), &r),
        Ok((a, b)) if a == "old" && b == "new"
    ));
    assert!(matches!(
        account::account_change_password_request(&site(), &session(), true, password_form("x"), &r),
        Err(Reply::Page(p)) if p.password_error == Some("New password and confirmation do not match.".to_string())
    ));
    assert!(matches!(
        account::account_change_password_request(&site(), &session(), false, password_form("x"), &r),
        Err(Reply::Forbidden)
    ));
    let done = account::account_change_password(&site(), &session(), &r, Ok(()));
    assert!(done.events[0].action == AuditAction::CredentialChanged);
    assert!(matches!(done.reply, Reply::Page(p) if p.chrome.flash.as_ref().unwrap().message == "Password changed."));
    let error = |kind: ErrorKind| match account::account_change_password(&site(), &session(), &r, fails(kind)).reply {
        Reply::Page(p) => p.password_error.unwrap(),
        _ => panic!("no page"),
    };
    assert_eq!(error(ErrorKind::InvalidCredential), "Current password is incorrect.");
    assert_eq!(error(ErrorKind::InvalidInput("too short".to_string())), "too short");
    assert_eq!(error(ErrorKind::Other), "Unable to change password right now.");
}

#[test]
fn second_factors_are_enrolled() {
    assert!(account::totp_enroll_form_check(&site(), &session(), false, &Ok(false)).is_ok());
    assert!(account::totp_enroll_form_check(&site(), &session(), false, &fails(ErrorKind::Other)).is_ok());
    assert!(matches!(
        account::totp_enroll_form_check(&site(), &session(), false, &Ok(true)),
        Err(Reply::Page(p)) if p.mfa_enabled && p.secret_base32.is_empty()
    ));
    let enrollment = TotpEnrollment {
        secret_base32: "ABC".to_string(),
        provisioning_uri: "otpauth://totp/x?secret=ABC".to_string(),
        recovery_codes: vec!["r1".to_string()],
    };
    match account::totp_enroll_form(&site(), &session(), false, Ok(enrollment)) {
        Reply::Page(p) => {
            assert!(!p.mfa_enabled && p.secret_base32 == "ABC" && p.recovery_codes == ["r1"]);
            assert!(p.qr_svg.contains("<svg") && p.activation_error.is_none());
        }
        _ => panic!("no page"),
    }
    assert!(matches!(
        account::totp_enroll_form(&site(), &session(), false, fails(ErrorKind::MfaAlreadyEnabled)),
        Reply::Page(p) if p.mfa_enabled
    ));
    assert!(matches!(
        account::totp_enroll_form(&site(), &session(), false, fails(ErrorKind::Other)),
        Reply::Page(p) if p.activation_error == Some("Unable to start MFA enrolment right now.".to_string())
    ));
}

#[test]
fn second_factors_are_activated_and_disabled() {
    let form = ActivateTotpForm { code: " 123456 ".to_string(), csrf: "t".to_string() };
    assert!(matches!(account::totp_activate_request(true, &form), Ok(c) if c == "123456"));
    let activate = |r: Result<(), EngineError>| account::totp_activate(&site(), &session(), false, &Ok(false), r);
    let done = activate(Ok(()));
    assert_eq!(op(&done.events[0]), "mfa_enable");
    assert!(matches!(done.reply, Reply::Redirect(u) if u == "/ui/account"));
    assert!(matches!(
        activate(fails(ErrorKind::InvalidMfaCode)).reply,
        Reply::Page(p) if p.activation_error == Some("Invalid authentication code.".to_string())
    ));
    assert!(matches!(activate(fails(ErrorKind::MfaNotEnabled)).reply, Reply::Redirect(u) if u == "/ui/account/totp"));
    assert!(matches!(activate(fails(ErrorKind::MfaAlreadyEnabled)).reply, Reply::Redirect(u) if u == "/ui/account"));
    assert!(matches!(
        activate(fails(ErrorKind::Other)).reply,
        Reply::Page(p) if p.activation_error == Some("Unable to activate MFA right now.".to_string())
    ));
    let disable = |r: Result<(), EngineError>| account::totp_disable(&site(), &session(), false, &Ok(true), r);
    assert_eq!(op(&disable(Ok(())).events[0]), "mfa_disable");
    assert_eq!(disable(fails(ErrorKind::MfaNotEnabled)).events.len(), 1);
    let failed = disable(fails(ErrorKind::Other));
    assert!(failed.events.is_empty() && matches!(failed.reply, Reply::Page(p) if p.mfa_enabled && p.activation_error.is_none()));
}

#[test]
fn recovery_codes_are_downloaded_and_renewed() {
    let codes = vec!["aaaa-bbbb".to_string(), "cccc-dddd".to_string()];
    match account::totp_download_recovery_codes(Ok(Some(codes.clone()))) {
        Reply::Page(p) => {
            assert_eq!(p.body, "aaaa-bbbb\ncccc-dddd\n");
            assert_eq!(p.body.lines().collect::<Vec<_>>(), codes);
            assert_eq!(p.content_type, "text/plain; charset=utf-8");
        }
        _ => panic!("no file"),
    }
    for missing in [Ok(None), fails(ErrorKind::Other)] {
        assert!(matches!(
            account::totp_download_recovery_codes(missing),
            Reply::NotFound(m) if m == "No pending recovery codes"
        ));
    }
    let renew = |r: Result<Vec<String>, EngineError>| account::totp_regenerate_codes(&site(), &session(), false, &Ok(false), r);
    assert!(matches!(renew(Ok(codes.clone())), Reply::Page(p) if p.recovery_codes == codes && p.secret_base32.is_empty()));
    assert!(matches!(renew(fails(ErrorKind::MfaNotEnabled)), Reply::Redirect(u) if u == "/ui/account/totp"));
    assert!(matches!(
        renew(fails(ErrorKind::Other)),
        Reply::Page(p) if p.activation_error == Some("Unable to regenerate codes right now.".to_string())
    ));
}

#[test]
fn hosts_give_relying_parties_and_origins() {
    let h = |s: &str| Some(s.to_string());
    assert_eq!(account::passkey_rp_id(&h("id.example.com:8420")), "id.example.com");
    assert_eq!(account::passkey_rp_id(&h("id.example.com")), "id.example.com");
    assert_eq!(account::passkey_rp_id(&None), "localhost");
    assert_eq!(account::passkey_origin(&h("localhost:8420")), "http://localhost:8420");
    assert_eq!(account::passkey_origin(&h("127.0.0.1")), "http://127.0.0.1");
    assert_eq!(account::passkey_origin(&h("id.example.com")), "https://id.example.com");
    assert_eq!(account::passkey_origin(&None), "http://localhost");
}

#[test]
fn passkeys_are_registered() {
    let options = account::passkey_register_begin_request(&Some("id.example.com:1".to_string()));
    assert!(options.discoverable && options.rp_id == "id.example.com");
    match account::passkey_register_begin(&session(), "Hearth", options.rp_id, Ok(vec![251, 255])) {
        RegistrationStart::Challenge(c) => {
            assert_eq!(c.challenge, "-_8");
            assert_eq!(c.user_id, "AAAAAAAAAAAAAAAAAAAAAg");
            assert_eq!(c.user_name, "ada@example.com");
            assert_eq!(c.rp_name, "Hearth");
            assert_eq!(c.pub_key_cred_params, [("public-key".to_string(), -7), ("public-key".to_string(), -257)]);
        }
        RegistrationStart::Unavailable(_) => panic!("refused"),
    }
    assert!(matches!(
        account::passkey_register_begin(&session(), "Hearth", String::new(), fails(ErrorKind::Other)),
        RegistrationStart::Unavailable(m) if m == "Registration unavailable"
    ));
    let body = |a: &str, b: &str| PasskeyRegisterCompleteBody { client_data_json: a.to_string(), attestation_object: b.to_string() };
    match account::passkey_register_complete_request(&None, &body("AQI", "Aw")) {
        Ok(r) => {
            assert_eq!((r.client_data_json, r.attestation_object), (vec![1, 2], vec![3]));
            assert!(r.discoverable && r.origin == "http://localhost");
        }
        Err(_) => panic!("refused"),
    }
    assert!(matches!(
        account::passkey_register_complete_request(&None, &body("!", "!")),
        Err(r) if r.bad_request && r.body == "Invalid client_data_json"
    ));
    assert!(matches!(
        account::passkey_register_complete_request(&None, &body("AQI", "AQI=")),
        Err(r) if r.bad_request && r.body == "Invalid attestation_object"
    ));
    let (reply, event) = account::passkey_register_complete(&session(), Ok(()));
    assert!(!reply.bad_request && reply.body == "OK" && op(&event.unwrap()) == "passkey_register");
    let (reply, event) = account::passkey_register_complete(&session(), fails(ErrorKind::Other));
    assert!(reply.bad_request && reply.body == "Registration failed" && event.is_none());
}

#[test]
fn passkeys_are_deleted() {
    assert!(matches!(account::passkey_delete_request(true, "AQID"), Ok(b) if b == [1, 2, 3]));
    assert!(matches!(account::passkey_delete_request(true, "?"), Err(Reply::Redirect(u)) if u == "/ui/account"));
    assert!(matches!(account::passkey_delete_request(false, "AQID"), Err(Reply::Forbidden)));
    assert_eq!(op(&account::passkey_delete(&session(), Ok(())).events[0]), "passkey_revoke");
    let failed = account::passkey_delete(&session(), fails(ErrorKind::Other));
    assert!(failed.events.is_empty() && matches!(failed.reply, Reply::Redirect(u) if u == "/ui/account"));
}

fn consent(client_id: u128) -> ConsentEntry {
    ConsentEntry {
        client_id,
        client_name: "Wiki".to_string(),
        client_logo_url: None,
        granted_scopes: vec!["openid".to_string()],
        granted_at: 0,
        updated_at: 60_000_000,
    }
}

#[test]
fn own_consents() {
    match consents::account_applications(&site(), &session(), false, &Ok(vec![consent(4)])) {
        Reply::Page(p) => {
            assert_eq!(p.consents[0].client_id, uuid(4));
            assert_eq!(p.consents[0].granted_at, "1970-01-01 00:00 UTC");
            assert_eq!(p.consents[0].updated_at, "1970-01-01 00:01 UTC");
            assert_eq!(p.consents[0].scopes, ["openid"]);
        }
        _ => panic!("no page"),
    }
    assert!(matches!(
        consents::consents_index(&site(), &session(), false, &fails(ErrorKind::Other)),
        Reply::Page(p) if p.consents.is_empty()
    ));
    let one = consents::revoke_consent(&session(), 4, Ok(()));
    assert!(matches!(one.reply, Reply::Redirect(u) if u == "/ui/account/applications"));
    assert!(one.events.len() == 1 && one.events[0].action == AuditAction::ConsentRevoked);
    assert!(one.events[0].metadata.iter().any(|(k, v)| k == "via" && matches!(v, Meta::Text(t) if t == "self")));
    assert!(one.events[0].metadata.iter().all(|(k, _)| k != "batch"));
    let gone = consents::revoke_consent(&session(), 4, fails(ErrorKind::ConsentNotFound));
    assert!(gone.events.is_empty() && matches!(gone.reply, Reply::NotFound(_)));
    let failed = consents::revoke_consent(&session(), 4, fails(ErrorKind::Other));
    assert!(failed.events.is_empty() && matches!(failed.reply, Reply::ServerError));
    assert!(matches!(
        consents::revoke_all_consents_targets(true, Ok(vec![consent(4), consent(5)])),
        Ok(ids) if ids == [4, 5]
    ));
    assert!(matches!(consents::revoke_all_consents_targets(true, fails(ErrorKind::Other)), Err(Reply::ServerError)));
    assert!(matches!(consents::revoke_all_consents_targets(false, Ok(vec![])), Err(Reply::Forbidden)));
    let done = consents::revoke_all_consents(&session(), &vec![(4, Ok(())), (5, fails(ErrorKind::Other)), (6, Ok(()))]);
    assert!(matches!(done.reply, Reply::Redirect(u) if u == "/ui/account/applications"));
    let logged: Vec<&str> = done.events.iter().map(|e| e.resource_id.as_str()).collect();
    assert_eq!(logged, [uuid(4), uuid(6)]);
    for e in &done.events {
        assert!(e.action == AuditAction::ConsentRevoked && e.realm_id == 7);
        assert!(e.metadata.iter().any(|(k, v)| k == "batch" && matches!(v, Meta::Flag(true))));
        assert!(e.metadata.iter().any(|(k, v)| k == "via" && matches!(v, Meta::Text(t) if t == "self")));
    }
    assert!(consents::revoke_all_consents_event(&session(), 4, &Ok(())).is_some());
    assert!(consents::revoke_all_consents_event(&session(), 4, &fails(ErrorKind::Other)).is_none());
}

#[test]
fn consents_of_a_user() {
    let user = User {
        id: 9,
        email: "eve@x".to_string(),
        display_name: String::new(),
        first_name: String::new(),
        last_name: String::new(),
        status: UserStatus::Active,
        created_at: 0,
        updated_at: 0,
        attributes: vec![],
    };
    let target = TargetRealm { id: 7, name: "acme".to_string(), routes: Routes::Flat };
    match consents::admin_user_consents_list(&site(), &session(), &target, 9, Ok(Some(user)), &Ok(vec![consent(4)])) {
        Reply::Page(p) => {
            assert_eq!((p.target_user_id.as_str(), p.target_user_email.as_str()), (uuid(9).as_str(), "eve@x"));
            assert!(p.consents.len() == 1 && p.realm_name == "acme" && p.chrome.is_admin);
        }
        _ => panic!("no page"),
    }
    assert!(matches!(
        consents::admin_user_consents_list(&site(), &session(), &target, 9, Ok(None), &Ok(vec![])),
        Reply::NotFound(m) if m == "User not found"
    ));
    assert!(matches!(consents::admin_user_consent_revoke_request(true, &uuid(9), "x"), Err(Reply::NotFound(m)) if m == "Client not found"));
    let done = consents::admin_user_consent_revoke(&session(), 7, 9, 4, Ok(()));
    assert!(done.events[0].action == AuditAction::ConsentRevoked && done.events[0].resource_type == "oauth_client");
    assert_eq!(done.events[0].metadata.len(), 3);
    assert!(matches!(done.reply, Reply::Redirect(u) if u == format!("/ui/admin/users/{}/applications", uuid(9))));
    let gone = consents::admin_user_consent_revoke(&session(), 7, 9, 4, fails(ErrorKind::ConsentNotFound));
    assert!(gone.events.is_empty() && matches!(gone.reply, Reply::NotFound(_)));
}

#[test]
fn linked_accounts() {
    let l = |name: Option<&str>| LinkedIdentity { idp_id: 6, idp_name: name.map(String::from), external_sub: "s".to_string() };
    match linked::linked_accounts_index(&site(), &session(), false, &Ok(vec![l(Some("Google")), l(None)])) {
        Reply::Page(p) => {
            assert_eq!(p.linked[0].display_name, "Google");
            assert_eq!(p.linked[1].display_name, "external IdP");
            assert_eq!(p.linked[0].idp_id, uuid(6));
        }
        _ => panic!("no page"),
    }
    assert!(matches!(linked::unlink_request(true, "x"), Err(Reply::NotFound(m)) if m == "Linked account not found"));
    let (reply, log) = linked::unlink(&session(), 6, Ok(()));
    assert!(matches!(reply, Reply::Redirect(u) if u == "/ui/account/linked-accounts"));
    let log = log.unwrap();
    assert!((log.realm_id, log.idp_id, log.user_id, log.via.as_str()) == (7, 6, 2, "self"));
    let (reply, log) = linked::unlink(&session(), 6, fails(ErrorKind::FederationNotLinked));
    assert!(log.is_none() && matches!(reply, Reply::NotFound(_)));
    assert!(matches!(linked::unlink(&session(), 6, fails(ErrorKind::Other)).0, Reply::ServerError));
}

#[test]
fn messages_have_kinds() {
    assert_eq!(FlashKind::Success.label(), "success");
    assert_eq!(FlashKind::Error.label(), "error");
}

#[test]
fn account_pages_tell_errors() {
    assert!(matches!(
        account::render_with_password_error(&site(), &session(), &records(false), "no".to_string()),
        Reply::Page(p) if p.password_error == Some("no".to_string()) && p.chrome.flash.is_none()
    ));
    assert!(matches!(
        account::render_with_flash(&site(), &session(), &records(false), web::Flash::success("ok".to_string())),
        Reply::Page(p) if p.password_error.is_none() && p.chrome.flash.is_some()
    ));
    assert!(matches!(
        account::render_totp_error(&site(), &session(), false, &Ok(false), "bad"),
        Reply::Page(p) if p.activation_error == Some("bad".to_string()) && !p.mfa_enabled
    ));
    assert!(matches!(
        account::render_totp_error(&site(), &session(), false, &Ok(true), "bad"),
        Reply::Page(p) if p.activation_error.is_none() && p.mfa_enabled
    ));
    assert!(account::load_passkey_rows(&fails(ErrorKind::Other)).is_empty());
    let rows = consents::load_consents(&Ok(vec![consent(4)]));
    assert!(rows.len() == 1 && rows[0].client_id == uuid(4));
    assert!(consents::load_consents(&fails(ErrorKind::Other)).is_empty());
    assert!(matches!(consents::admin_user_consents_list_request(&uuid(9)), Ok(9)));
    assert!(matches!(consents::admin_user_consents_list_request("9"), Err(Reply::NotFound(m)) if m == "User not found"));
}
