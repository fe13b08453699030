//! The signed-in user's own account: password, second factors and passkeys.

use crate::audit;
use crate::codec;
use crate::text;
use crate::users;
use crate::web;
use vstd::prelude::*;
use vstd::string::*;

verus! {

// ---------------------------------------------------------------------------
// Account page
// ---------------------------------------------------------------------------

/// A passkey on the account page.
pub struct PasskeyRow {
    /// The credential identifier in base64url.
    pub id_b64url: String,
    /// The credential identifier for display.
    pub id_short: String,
    /// COSE algorithm identifier.
    pub algorithm: i64,
    /// Whether the credential is discoverable.
    pub discoverable: bool,
}

impl View for PasskeyRow {
    type V = users::CredRow;

    open spec fn view(&self) -> users::CredRow {
        users::CredRow {
            id_b64url: self.id_b64url@,
            id_short: self.id_short@,
            algorithm: self.algorithm,
            discoverable: self.discoverable,
        }
    }
}

/// The rows of the passkeys that the engine listed; none where it failed.
pub open spec fn passkey_rows(listed: Result<Vec<users::Credential>, web::EngineError>) -> Seq<
    users::CredRow,
> {
    match listed {
        Ok(items) => users::cred_rows(items@),
        Err(_) => Seq::empty(),
    }
}

/// Makes the rows of the user's passkeys.
pub fn load_passkey_rows(listed: &Result<Vec<users::Credential>, web::EngineError>) -> (r: Vec<
    PasskeyRow,
>)
    ensures
        text::views(r@) == passkey_rows(*listed),
{
    let mut out: Vec<PasskeyRow> = Vec::new();
    if let Ok(items) = listed {
        let mut i: usize = 0;
        while i < items.len()
            invariant
                i <= items.len(),
                out.len() == i,
                forall|j: int| 0 <= j < i ==> (#[trigger] out@[j])@ == users::cred_row(items@[j]),
            decreases items.len() - i,
        {
            let c = &items[i];
            out.push(
                PasskeyRow {
                    id_b64url: c.id_b64url.clone(),
                    id_short: users::shorten_id(c.id_b64url.as_str()),
                    algorithm: c.algorithm,
                    discoverable: c.discoverable,
                },
            );
            i += 1;
        }
    }
    proof {
        assert(text::views(out@) =~= passkey_rows(*listed));
    }
    out
}

/// What the engine knows of the user's second factors.
pub struct AccountRecords {
    pub mfa_enabled: Result<bool, web::EngineError>,
    pub credentials: Result<Vec<users::Credential>, web::EngineError>,
    pub is_admin: bool,
}

/// Whether a second factor is known to be enabled.
pub open spec fn is_enabled(mfa: Result<bool, web::EngineError>) -> bool {
    mfa == Ok::<bool, web::EngineError>(true)
}

fn enabled(mfa: &Result<bool, web::EngineError>) -> (r: bool)
    ensures
        r == is_enabled(*mfa),
{
    match mfa {
        Ok(b) => *b,
        Err(_) => false,
    }
}

/// The account page.
pub struct AccountIndexTemplate {
    /// The error above the password form.
    pub password_error: Option<String>,
    pub mfa_enabled: bool,
    pub passkey_credentials: Vec<PasskeyRow>,
    pub chrome: web::Chrome,
}

impl AccountIndexTemplate {
    /// The page with the given contents.
    pub fn new(
        site: &web::Site,
        session: &web::UiSession,
        mfa_enabled: bool,
        passkey_credentials: Vec<PasskeyRow>,
        flash: Option<web::Flash>,
        password_error: Option<String>,
        is_admin: bool,
    ) -> (r: AccountIndexTemplate)
        ensures
            r.password_error == password_error,
            r.mfa_enabled == mfa_enabled,
            r.passkey_credentials == passkey_credentials,
            r.chrome.is_account_page(*site, *session, "account"@, is_admin),
            r.chrome.flash == flash,
    {
        AccountIndexTemplate {
            password_error,
            mfa_enabled,
            passkey_credentials,
            chrome: web::Chrome::new(site, session, "account", is_admin, true, flash),
        }
    }

    /// Whether the page shows the user's records.
    pub open spec fn shows(self, site: web::Site, session: web::UiSession, records: AccountRecords) -> bool {
        &&& self.mfa_enabled == is_enabled(records.mfa_enabled)
        &&& text::views(self.passkey_credentials@) == passkey_rows(records.credentials)
        &&& self.chrome.is_account_page(site, session, "account"@, records.is_admin)
    }
}

fn account_page(
    site: &web::Site,
    session: &web::UiSession,
    records: &AccountRecords,
    flash: Option<web::Flash>,
    password_error: Option<String>,
) -> (r: AccountIndexTemplate)
    ensures
        r.shows(*site, *session, *records),
        r.password_error == password_error,
        r.chrome.flash == flash,
{
    AccountIndexTemplate::new(
        site,
        session,
        enabled(&records.mfa_enabled),
        load_passkey_rows(&records.credentials),
        flash,
        password_error,
        records.is_admin,
    )
}

/// Shows the account page.
pub fn account_index(site: &web::Site, session: &web::UiSession, records: &AccountRecords) -> (r:
    web::Reply<AccountIndexTemplate>)
    ensures
        r is Page && r->Page_0.shows(*site, *session, *records) && r->Page_0.password_error is None
            && r->Page_0.chrome.flash is None,
{
    web::Reply::Page(account_page(site, session, records, None, None))
}

/// Whether a reply is the account page with an error above the password form.
pub open spec fn tells_password_error(
    r: web::Reply<AccountIndexTemplate>,
    site: web::Site,
    session: web::UiSession,
    records: AccountRecords,
    error: Seq<char>,
) -> bool {
    r is Page && r->Page_0.shows(site, session, records) && text::opt_text(r->Page_0.password_error)
        == Some(error) && r->Page_0.chrome.flash is None
}

/// Shows the account page with an error above the password form.
pub fn render_with_password_error(
    site: &web::Site,
    session: &web::UiSession,
    records: &AccountRecords,
    error: String,
) -> (r: web::Reply<AccountIndexTemplate>)
    ensures
        tells_password_error(r, *site, *session, *records, error@),
{
    web::Reply::Page(account_page(site, session, records, None, Some(error)))
}

/// Shows the account page with a message above.
pub fn render_with_flash(
    site: &web::Site,
    session: &web::UiSession,
    records: &AccountRecords,
    flash: web::Flash,
) -> (r: web::Reply<AccountIndexTemplate>)
    ensures
        r is Page && r->Page_0.shows(*site, *session, *records) && r->Page_0.password_error is None
            && r->Page_0.chrome.flash == Some(flash),
{
    web::Reply::Page(account_page(site, session, records, Some(flash), None))
}

// ---------------------------------------------------------------------------
// Password
// ---------------------------------------------------------------------------

/// The form that changes the password.
pub struct ChangePasswordForm {
    pub current_password: String,
    pub new_password: String,
    pub confirm_password: String,
    pub csrf: String,
}

/// Reads the old and the new password. The new one has to be given twice alike.
pub fn account_change_password_request(
    site: &web::Site,
    session: &web::UiSession,
    csrf_ok: bool,
    form: ChangePasswordForm,
    records: &AccountRecords,
) -> (r: Result<(String, String), web::Reply<AccountIndexTemplate>>)
    ensures
        !csrf_ok ==> r is Err && r->Err_0 is Forbidden,
        csrf_ok ==> if form.new_password@ == form.confirm_password@ {
            r is Ok && r->Ok_0 == (form.current_password, form.new_password)
        } else {
            r is Err && tells_password_error(
                r->Err_0,
                *site,
                *session,
                *records,
                "New password and confirmation do not match."@,
            )
        },
{
    if !csrf_ok {
        return Err(web::Reply::Forbidden);
    }
    if !text::same(form.new_password.as_str(), form.confirm_password.as_str()) {
        return Err(
            render_with_password_error(
                site,
                session,
                records,
                "New password and confirmation do not match.".to_owned(),
            ),
        );
    }
    Ok((form.current_password, form.new_password))
}

/// Answers after the engine tried to change the password.
pub fn account_change_password(
    site: &web::Site,
    session: &web::UiSession,
    records: &AccountRecords,
    changed: Result<(), web::EngineError>,
) -> (r: web::Outcome<AccountIndexTemplate>)
    ensures
        match changed {
            Ok(_) => {
                &&& r.log() == seq![
                    web::ui_event(
                        *session,
                        session.realm_id,
                        web::AuditAction::CredentialChanged,
                        "user"@,
                        codec::hyphenated(session.user_id),
                        web::via_ui(),
                    ),
                ]
                &&& r.reply is Page
                &&& r.reply->Page_0.shows(*site, *session, *records)
                &&& r.reply->Page_0.password_error is None
                &&& r.reply->Page_0.chrome.flash is Some
                &&& r.reply->Page_0.chrome.flash->0.says(
                    web::FlashKind::Success,
                    "Password changed."@,
                )
            },
            Err(e) => r.is_silent() && tells_password_error(
                r.reply,
                *site,
                *session,
                *records,
                match e.kind {
                    web::ErrorKind::InvalidCredential => "Current password is incorrect."@,
                    web::ErrorKind::InvalidInput(reason) => reason@,
                    _ => "Unable to change password right now."@,
                },
            ),
        },
{
    match changed {
        Ok(_) => {
            let event = audit::audit_password_changed(session);
            let flash = web::Flash::success("Password changed.".to_owned());
            web::Outcome::logged(render_with_flash(site, session, records, flash), event)
        },
        Err(e) => {
            let error = match e.kind {
                web::ErrorKind::InvalidCredential => "Current password is incorrect.".to_owned(),
                web::ErrorKind::InvalidInput(reason) => reason,
                _ => "Unable to change password right now.".to_owned(),
            };
            web::Outcome::silent(render_with_password_error(site, session, records, error))
        },
    }
}

// ---------------------------------------------------------------------------
// Second factor
// ---------------------------------------------------------------------------

/// A pending enrolment.
pub struct TotpEnrollment {
    pub secret_base32: String,
    pub provisioning_uri: String,
    pub recovery_codes: Vec<String>,
}

/// The page that enables and disables the second factor.
pub struct TotpEnrollTemplate {
    pub mfa_enabled: bool,
    pub secret_base32: String,
    pub provisioning_uri: String,
    /// The URI's QR code.
    pub qr_svg: String,
    pub recovery_codes: Vec<String>,
    pub activation_error: Option<String>,
    pub chrome: web::Chrome,
}

impl TotpEnrollTemplate {
    /// The page with the given contents.
    pub fn new(
        site: &web::Site,
        session: &web::UiSession,
        mfa_enabled: bool,
        enrollment: TotpEnrollment,
        qr_svg: String,
        activation_error: Option<String>,
        is_admin: bool,
    ) -> (r: TotpEnrollTemplate)
        ensures
            r.mfa_enabled == mfa_enabled,
            r.offers(enrollment),
            r.qr_svg == qr_svg,
            r.activation_error == activation_error,
            r.chrome.is_account_page(*site, *session, "account"@, is_admin),
            r.chrome.flash is None,
    {
        TotpEnrollTemplate {
            mfa_enabled,
            secret_base32: enrollment.secret_base32,
            provisioning_uri: enrollment.provisioning_uri,
            qr_svg,
            recovery_codes: enrollment.recovery_codes,
            activation_error,
            chrome: web::Chrome::new(site, session, "account", is_admin, true, None),
        }
    }

    /// Whether the page holds an enrolment.
    pub open spec fn offers(self, enrollment: TotpEnrollment) -> bool {
        &&& self.secret_base32 == enrollment.secret_base32
        &&& self.provisioning_uri == enrollment.provisioning_uri
        &&& self.recovery_codes == enrollment.recovery_codes
    }

    /// Whether the page holds no secret and no QR code, but these recovery
    /// codes.
    pub open spec fn holds_only(self, recovery_codes: Seq<Seq<char>>) -> bool {
        &&& self.secret_base32@ == Seq::<char>::empty()
        &&& self.provisioning_uri@ == Seq::<char>::empty()
        &&& self.qr_svg@ == Seq::<char>::empty()
        &&& text::texts(self.recovery_codes@) == recovery_codes
    }

    /// Whether the page is one of the account, without a message.
    pub open spec fn is_for(self, site: web::Site, session: web::UiSession, is_admin: bool) -> bool {
        self.chrome.is_account_page(site, session, "account"@, is_admin) && self.chrome.flash is None
    }

    /// Whether the page offers to disable the second factor.
    pub open spec fn is_disable_form(self, site: web::Site, session: web::UiSession, is_admin: bool) -> bool {
        &&& self.mfa_enabled
        &&& self.holds_only(Seq::empty())
        &&& self.activation_error is None
        &&& self.is_for(site, session, is_admin)
    }

    /// Whether the page shows an error in place of an enrolment.
    pub open spec fn is_error_form(
        self,
        site: web::Site,
        session: web::UiSession,
        is_admin: bool,
        error: Seq<char>,
    ) -> bool {
        &&& !self.mfa_enabled
        &&& self.holds_only(Seq::empty())
        &&& text::opt_text(self.activation_error) == Some(error)
        &&& self.is_for(site, session, is_admin)
    }
}

/// The page without a secret.
fn bare_page(
    site: &web::Site,
    session: &web::UiSession,
    mfa_enabled: bool,
    recovery_codes: Vec<String>,
    activation_error: Option<String>,
    is_admin: bool,
) -> (r: TotpEnrollTemplate)
    ensures
        r.mfa_enabled == mfa_enabled,
        r.holds_only(text::texts(recovery_codes@)),
        r.activation_error == activation_error,
        r.is_for(*site, *session, is_admin),
{
    TotpEnrollTemplate::new(
        site,
        session,
        mfa_enabled,
        TotpEnrollment {
            secret_base32: String::new(),
            provisioning_uri: String::new(),
            recovery_codes,
        },
        String::new(),
        activation_error,
        is_admin,
    )
}

fn disable_form(site: &web::Site, session: &web::UiSession, is_admin: bool) -> (r:
    TotpEnrollTemplate)
    ensures
        r.is_disable_form(*site, *session, is_admin),
{
    let none: Vec<String> = Vec::new();
    proof {
        assert(text::texts(none@) =~= Seq::empty());
    }
    bare_page(site, session, true, none, None, is_admin)
}

fn error_form(site: &web::Site, session: &web::UiSession, is_admin: bool, error: &str) -> (r:
    TotpEnrollTemplate)
    ensures
        r.is_error_form(*site, *session, is_admin, error@),
{
    let none: Vec<String> = Vec::new();
    proof {
        assert(text::texts(none@) =~= Seq::empty());
    }
    bare_page(site, session, false, none, Some(error.to_owned()), is_admin)
}

/// Decides whether to start an enrolment: not where the second factor is
/// enabled, when the page offers to disable it.
pub fn totp_enroll_form_check(
    site: &web::Site,
    session: &web::UiSession,
    is_admin: bool,
    mfa: &Result<bool, web::EngineError>,
) -> (r: Result<(), web::Reply<TotpEnrollTemplate>>)
    ensures
        if is_enabled(*mfa) {
            r is Err && r->Err_0 is Page && r->Err_0->Page_0.is_disable_form(
                *site,
                *session,
                is_admin,
            )
        } else {
            r is Ok
        },
{
    if enabled(mfa) {
        Err(web::Reply::Page(disable_form(site, session, is_admin)))
    } else {
        Ok(())
    }
}

/// Shows the enrolment that the engine started, with its QR code.
pub fn totp_enroll_form(
    site: &web::Site,
    session: &web::UiSession,
    is_admin: bool,
    enrolled: Result<TotpEnrollment, web::EngineError>,
) -> (r: web::Reply<TotpEnrollTemplate>)
    ensures
        r is Page && {
            let p = r->Page_0;
            match enrolled {
                Ok(enrollment) => {
                    &&& !p.mfa_enabled
                    &&& p.offers(enrollment)
                    &&& p.qr_svg@ == codec::shown_code(enrollment.provisioning_uri@)
                    &&& p.activation_error is None
                    &&& p.is_for(*site, *session, is_admin)
                },
                Err(e) => if e.kind is MfaAlreadyEnabled {
                    p.is_disable_form(*site, *session, is_admin)
                } else {
                    p.is_error_form(
                        *site,
                        *session,
                        is_admin,
                        "Unable to start MFA enrolment right now."@,
                    )
                },
            }
        },
{
    match enrolled {
        Ok(enrollment) => {
            let qr_svg = codec::generate_qr_svg(enrollment.provisioning_uri.as_str());
            web::Reply::Page(
                TotpEnrollTemplate::new(site, session, false, enrollment, qr_svg, None, is_admin),
            )
        },
        Err(e) => match e.kind {
            web::ErrorKind::MfaAlreadyEnabled => web::Reply::Page(
                disable_form(site, session, is_admin),
            ),
            _ => web::Reply::Page(
                error_form(site, session, is_admin, "Unable to start MFA enrolment right now."),
            ),
        },
    }
}

/// Whether a reply tells an error on the page of the second factor: only where
/// the second factor is not enabled, else there is no place for it.
pub open spec fn tells_totp_error(
    r: web::Reply<TotpEnrollTemplate>,
    site: web::Site,
    session: web::UiSession,
    is_admin: bool,
    mfa: Result<bool, web::EngineError>,
    error: Seq<char>,
) -> bool {
    r is Page && if is_enabled(mfa) {
        r->Page_0.is_disable_form(site, session, is_admin)
    } else {
        r->Page_0.is_error_form(site, session, is_admin, error)
    }
}

/// Shows the page of the second factor with an error, without a new secret.
pub fn render_totp_error(
    site: &web::Site,
    session: &web::UiSession,
    is_admin: bool,
    mfa: &Result<bool, web::EngineError>,
    error: &str,
) -> (r: web::Reply<TotpEnrollTemplate>)
    ensures
        tells_totp_error(r, *site, *session, is_admin, *mfa, error@),
{
    if enabled(mfa) {
        web::Reply::Page(disable_form(site, session, is_admin))
    } else {
        web::Reply::Page(error_form(site, session, is_admin, error))
    }
}

/// The form that activates the second factor.
pub struct ActivateTotpForm {
    pub code: String,
    pub csrf: String,
}

/// Reads the code to check.
pub fn totp_activate_request(csrf_ok: bool, form: &ActivateTotpForm) -> (r: Result<
    String,
    web::Reply<TotpEnrollTemplate>,
>)
    ensures
        !csrf_ok ==> r is Err && r->Err_0 is Forbidden,
        csrf_ok ==> r is Ok && r->Ok_0@ == text::trimmed(form.code@),
{
    if csrf_ok {
        Ok(text::trim(form.code.as_str()))
    } else {
        Err(web::Reply::Forbidden)
    }
}

/// Answers after the engine checked the code.
pub fn totp_activate(
    site: &web::Site,
    session: &web::UiSession,
    is_admin: bool,
    mfa: &Result<bool, web::EngineError>,
    verified: Result<(), web::EngineError>,
) -> (r: web::Outcome<TotpEnrollTemplate>)
    ensures
        match verified {
            Ok(_) => r.log() == seq![audit::mfa_event(*session, "mfa_enable"@)]
                && r.reply.redirects("/ui/account"@),
            Err(e) => r.is_silent() && match e.kind {
                web::ErrorKind::InvalidMfaCode => tells_totp_error(
                    r.reply,
                    *site,
                    *session,
                    is_admin,
                    *mfa,
                    "Invalid authentication code."@,
                ),
                web::ErrorKind::MfaNotEnabled => r.reply.redirects("/ui/account/totp"@),
                web::ErrorKind::MfaAlreadyEnabled => r.reply.redirects("/ui/account"@),
                _ => tells_totp_error(
                    r.reply,
                    *site,
                    *session,
                    is_admin,
                    *mfa,
                    "Unable to activate MFA right now."@,
                ),
            },
        },
{
    match verified {
        Ok(_) => {
            let event = audit::audit_mfa_event(session, "mfa_enable");
            web::Outcome::logged(web::Reply::redirect("/ui/account"), event)
        },
        Err(e) => web::Outcome::silent(
            match e.kind {
                web::ErrorKind::InvalidMfaCode => render_totp_error(
                    site,
                    session,
                    is_admin,
                    mfa,
                    "Invalid authentication code.",
                ),
                web::ErrorKind::MfaNotEnabled => web::Reply::redirect("/ui/account/totp"),
                web::ErrorKind::MfaAlreadyEnabled => web::Reply::redirect("/ui/account"),
                _ => render_totp_error(
                    site,
                    session,
                    is_admin,
                    mfa,
                    "Unable to activate MFA right now.",
                ),
            },
        ),
    }
}

/// The form that disables the second factor.
pub struct DisableTotpForm {
    pub csrf: String,
}

/// Answers after the engine tried to disable the second factor; one that was
/// not enabled is disabled too.
pub fn totp_disable(
    site: &web::Site,
    session: &web::UiSession,
    is_admin: bool,
    mfa: &Result<bool, web::EngineError>,
    disabled: Result<(), web::EngineError>,
) -> (r: web::Outcome<TotpEnrollTemplate>)
    ensures
        if disabled is Ok || disabled->Err_0.kind is MfaNotEnabled {
            r.log() == seq![audit::mfa_event(*session, "mfa_disable"@)] && r.reply.redirects(
                "/ui/account"@,
            )
        } else {
            r.is_silent() && tells_totp_error(
                r.reply,
                *site,
                *session,
                is_admin,
                *mfa,
                "Unable to disable MFA right now."@,
            )
        },
{
    let done = match disabled {
        Ok(_) => true,
        Err(e) => match e.kind {
            web::ErrorKind::MfaNotEnabled => true,
            _ => false,
        },
    };
    if done {
        let event = audit::audit_mfa_event(session, "mfa_disable");
        web::Outcome::logged(web::Reply::redirect("/ui/account"), event)
    } else {
        web::Outcome::silent(
            render_totp_error(site, session, is_admin, mfa, "Unable to disable MFA right now."),
        )
    }
}

/// The file of recovery codes: each on a line of its own.
pub open spec fn codes_file(codes: Seq<Seq<char>>) -> Seq<char> {
    text::joined(codes, "\n"@) + "\n"@
}

/// A text file to download.
pub struct CodesDownload {
    pub content_type: String,
    pub content_disposition: String,
    pub body: String,
}

/// Offers the pending recovery codes for download.
pub fn totp_download_recovery_codes(pending: Result<Option<Vec<String>>, web::EngineError>) -> (r:
    web::Reply<CodesDownload>)
    ensures
        match pending {
            Ok(Some(codes)) => r is Page && {
                let p = r->Page_0;
                &&& p.content_type@ == "text/plain; charset=utf-8"@
                &&& p.content_disposition@ == "attachment; filename=\"hearth-recovery-codes.txt\""@
                &&& p.body@ == codes_file(text::texts(codes@))
            },
            _ => r.not_found("No pending recovery codes"@),
        },
{
    match pending {
        Ok(Some(codes)) => web::Reply::Page(
            CodesDownload {
                content_type: "text/plain; charset=utf-8".to_owned(),
                content_disposition:
                    "attachment; filename=\"hearth-recovery-codes.txt\"".to_owned(),
                body: text::join(&codes, "\n").concat("\n"),
            },
        ),
        _ => web::Reply::missing("No pending recovery codes"),
    }
}

/// The codes come back when the file is read by lines.
pub proof fn law_codes_file(codes: Seq<Seq<char>>)
    requires
        forall|k: int| 0 <= k < codes.len() ==> text::is_line(#[trigger] codes[k]),
    ensures
        text::filled_lines(codes_file(codes)) == codes,
{
    text::law_ended_lines_round_trip(codes);
}

/// Answers after the engine was to make new recovery codes: the page shows them
/// once, without a secret.
pub fn totp_regenerate_codes(
    site: &web::Site,
    session: &web::UiSession,
    is_admin: bool,
    mfa: &Result<bool, web::EngineError>,
    regenerated: Result<Vec<String>, web::EngineError>,
) -> (r: web::Reply<TotpEnrollTemplate>)
    ensures
        match regenerated {
            Ok(codes) => r is Page && {
                let p = r->Page_0;
                &&& !p.mfa_enabled
                &&& p.holds_only(text::texts(codes@))
                &&& p.activation_error is None
                &&& p.is_for(*site, *session, is_admin)
            },
            Err(e) => if e.kind is MfaNotEnabled {
                r.redirects("/ui/account/totp"@)
            } else {
                tells_totp_error(
                    r,
                    *site,
                    *session,
                    is_admin,
                    *mfa,
                    "Unable to regenerate codes right now."@,
                )
            },
        },
{
    match regenerated {
        Ok(codes) => web::Reply::Page(bare_page(site, session, false, codes, None, is_admin)),
        Err(e) => match e.kind {
            web::ErrorKind::MfaNotEnabled => web::Reply::redirect("/ui/account/totp"),
            _ => render_totp_error(
                site,
                session,
                is_admin,
                mfa,
                "Unable to regenerate codes right now.",
            ),
        },
    }
}

// ---------------------------------------------------------------------------
// Passkeys
// ---------------------------------------------------------------------------

/// The host that a request was sent to, `localhost` where it does not say.
pub open spec fn host_of(header: Option<String>) -> Seq<char> {
    match header {
        Some(h) => h@,
        None => "localhost"@,
    }
}

fn host_text(header: &Option<String>) -> (r: String)
    ensures
        r@ == host_of(*header),
{
    match header {
        Some(h) => h.clone(),
        None => "localhost".to_owned(),
    }
}

/// The relying party of a host: its name without the port.
pub open spec fn rp_id_of(host: Seq<char>) -> Seq<char> {
    text::split_pieces(host, text::Separator::Char(':'))[0]
}

/// Reads the relying party from the `Host` header.
pub fn passkey_rp_id(header: &Option<String>) -> (r: String)
    ensures
        r@ == rp_id_of(host_of(*header)),
{
    let host = host_text(header);
    let mut pieces = text::split(host.as_str(), text::Separator::Char(':'));
    proof {
        assert(text::texts(pieces@)[0] == pieces@[0]@);
    }
    pieces.remove(0)
}

/// A host named with its port has the relying party of its name.
pub proof fn law_rp_id(name: Seq<char>, port: Seq<char>)
    requires
        !name.contains(':'),
    ensures
        rp_id_of(name) == name,
        rp_id_of(name + ":"@ + port) == name,
{
    text::lemma_first_piece(name, ':', port);
    reveal_strlit(":");
    assert(":"@ =~= seq![':']);
}

/// The origin of a host: plain HTTP on the local machine, else HTTPS.
pub open spec fn origin_of(host: Seq<char>) -> Seq<char> {
    (if text::has_prefix(host, "localhost"@) || text::has_prefix(host, "127.0.0.1"@) {
        "http"@
    } else {
        "https"@
    }) + "://"@ + host
}

/// Reads the origin from the `Host` header.
pub fn passkey_origin(header: &Option<String>) -> (r: String)
    ensures
        r@ == origin_of(host_of(*header)),
{
    let host = host_text(header);
    let local = text::strip_prefix(host.as_str(), "localhost").is_some() || text::strip_prefix(
        host.as_str(),
        "127.0.0.1",
    ).is_some();
    let scheme = if local {
        "http"
    } else {
        "https"
    };
    scheme.to_owned().concat("://").concat(host.as_str())
}

/// What the engine is asked when a registration starts.
pub struct RegistrationOptions {
    pub rp_id: String,
    pub discoverable: bool,
}

/// Makes the options of a registration.
pub fn passkey_register_begin_request(header: &Option<String>) -> (r: RegistrationOptions)
    ensures
        r.rp_id@ == rp_id_of(host_of(*header)),
        r.discoverable,
{
    RegistrationOptions { rp_id: passkey_rp_id(header), discoverable: true }
}

/// What the browser is told when a registration starts.
pub struct RegistrationChallenge {
    /// The challenge in base64url.
    pub challenge: String,
    pub rp_id: String,
    pub rp_name: String,
    /// The user's identifier in base64url.
    pub user_id: String,
    pub user_name: String,
    pub user_display_name: String,
    /// Credential types with COSE algorithm identifiers, the preferred one
    /// first.
    pub pub_key_cred_params: Vec<(String, i64)>,
    pub resident_key: String,
    pub user_verification: String,
    pub attestation: String,
}

/// The answer to a request to start a registration.
pub enum RegistrationStart {
    Challenge(RegistrationChallenge),
    /// A plain text under the status "internal server error".
    Unavailable(String),
}

/// Answers after the engine started a registration.
pub fn passkey_register_begin(
    session: &web::UiSession,
    product_name: &str,
    rp_id: String,
    started: Result<Vec<u8>, web::EngineError>,
) -> (r: RegistrationStart)
    ensures
        match started {
            Err(_) => r is Unavailable && r->Unavailable_0@ == "Registration unavailable"@,
            Ok(challenge) => r is Challenge && {
                let c = r->Challenge_0;
                &&& c.challenge@ == codec::base64url(challenge@)
                &&& c.rp_id == rp_id
                &&& c.rp_name@ == product_name@
                &&& c.user_id@ == codec::base64url(codec::uuid_octets(session.user_id))
                &&& c.user_name@ == session.user_email@
                &&& c.user_display_name@ == session.user_email@
                &&& c.pub_key_cred_params@.len() == 2
                &&& c.pub_key_cred_params@[0].0@ == "public-key"@
                &&& c.pub_key_cred_params@[0].1 == -7
                &&& c.pub_key_cred_params@[1].0@ == "public-key"@
                &&& c.pub_key_cred_params@[1].1 == -257
                &&& c.resident_key@ == "preferred"@
                &&& c.user_verification@ == "preferred"@
                &&& c.attestation@ == "none"@
            },
        },
{
    match started {
        Err(_) => RegistrationStart::Unavailable("Registration unavailable".to_owned()),
        Ok(challenge) => {
            let mut params: Vec<(String, i64)> = Vec::new();
            params.push(("public-key".to_owned(), -7));
            params.push(("public-key".to_owned(), -257));
            RegistrationStart::Challenge(
                RegistrationChallenge {
                    challenge: codec::encode_base64url(&challenge),
                    rp_id,
                    rp_name: product_name.to_owned(),
                    user_id: codec::encode_base64url(&codec::uuid_bytes(session.user_id)),
                    user_name: session.user_email.clone(),
                    user_display_name: session.user_email.clone(),
                    pub_key_cred_params: params,
                    resident_key: "preferred".to_owned(),
                    user_verification: "preferred".to_owned(),
                    attestation: "none".to_owned(),
                },
            )
        },
    }
}

/// What the browser sends when a registration is complete.
pub struct PasskeyRegisterCompleteBody {
    /// In base64url.
    pub client_data_json: String,
    /// In base64url.
    pub attestation_object: String,
}

/// What the engine is handed when a registration is complete.
pub struct RegistrationResponse {
    pub client_data_json: Vec<u8>,
    pub attestation_object: Vec<u8>,
    pub origin: String,
    pub discoverable: bool,
}

/// The reply to a completed registration: a plain text and whether the status
/// is "bad request".
pub struct PlainReply {
    pub bad_request: bool,
    pub body: String,
}

impl PlainReply {
    /// Whether the reply refuses with a text.
    pub open spec fn refuses(self, body: Seq<char>) -> bool {
        self.bad_request && self.body@ == body
    }
}

/// Decodes what the browser sent.
pub fn passkey_register_complete_request(
    header: &Option<String>,
    body: &PasskeyRegisterCompleteBody,
) -> (r: Result<RegistrationResponse, PlainReply>)
    ensures
        match (
            codec::base64url_bytes(body.client_data_json@),
            codec::base64url_bytes(body.attestation_object@),
        ) {
            (None, _) => r is Err && r->Err_0.refuses("Invalid client_data_json"@),
            (Some(_), None) => r is Err && r->Err_0.refuses("Invalid attestation_object"@),
            (Some(data), Some(object)) => {
                &&& r is Ok
                &&& r->Ok_0.client_data_json@ == data
                &&& r->Ok_0.attestation_object@ == object
                &&& r->Ok_0.origin@ == origin_of(host_of(*header))
                &&& r->Ok_0.discoverable
            },
        },
{
    let client_data_json = match codec::decode_base64url(body.client_data_json.as_str()) {
        Some(bytes) => bytes,
        None => return Err(
            PlainReply { bad_request: true, body: "Invalid client_data_json".to_owned() },
        ),
    };
    let attestation_object = match codec::decode_base64url(body.attestation_object.as_str()) {
        Some(bytes) => bytes,
        None => return Err(
            PlainReply { bad_request: true, body: "Invalid attestation_object".to_owned() },
        ),
    };
    Ok(
        RegistrationResponse {
            client_data_json,
            attestation_object,
            origin: passkey_origin(header),
            discoverable: true,
        },
    )
}

/// Answers after the engine checked the registration, with the event to log.
pub fn passkey_register_complete(
    session: &web::UiSession,
    completed: Result<(), web::EngineError>,
) -> (r: (PlainReply, Option<web::AuditEvent>))
    ensures
        match completed {
            Ok(_) => !r.0.bad_request && r.0.body@ == "OK"@ && r.1 is Some && r.1->0@
                == audit::mfa_event(*session, "passkey_register"@),
            Err(_) => r.0.refuses("Registration failed"@) && r.1 is None,
        },
{
    match completed {
        Ok(_) => (
            PlainReply { bad_request: false, body: "OK".to_owned() },
            Some(audit::audit_mfa_event(session, "passkey_register")),
        ),
        Err(_) => (
            PlainReply { bad_request: true, body: "Registration failed".to_owned() },
            None,
        ),
    }
}

/// The form that deletes a passkey.
pub struct DeletePasskeyForm {
    pub csrf: String,
}

/// Reads which passkey is to be deleted.
pub fn passkey_delete_request(csrf_ok: bool, cred_id: &str) -> (r: Result<Vec<u8>, web::Reply<()>>)
    ensures
        !csrf_ok ==> r is Err && r->Err_0 is Forbidden,
        csrf_ok ==> match codec::base64url_bytes(cred_id@) {
            Some(bytes) => r is Ok && r->Ok_0@ == bytes,
            None => r is Err && r->Err_0.redirects("/ui/account"@),
        },
{
    if !csrf_ok {
        return Err(web::Reply::Forbidden);
    }
    match codec::decode_base64url(cred_id) {
        Some(bytes) => Ok(bytes),
        None => Err(web::Reply::redirect("/ui/account")),
    }
}

/// Answers after the engine tried to delete the passkey.
pub fn passkey_delete(session: &web::UiSession, revoked: Result<(), web::EngineError>) -> (r:
    web::Outcome<()>)
    ensures
        r.reply.redirects("/ui/account"@),
        match revoked {
            Ok(_) => r.log() == seq![audit::mfa_event(*session, "passkey_revoke"@)],
            Err(_) => r.is_silent(),
        },
{
    match revoked {
        Ok(_) => {
            let event = audit::audit_mfa_event(session, "passkey_revoke");
            web::Outcome::logged(web::Reply::redirect("/ui/account"), event)
        },
        Err(_) => web::Outcome::silent(web::Reply::redirect("/ui/account")),
    }
}

/// What is seen of a row is what it holds, each part under its own name.
pub proof fn law_rows_seen(a: PasskeyRow)
    ensures
        a@.id_b64url == a.id_b64url@,
        a@.id_short == a.id_short@,
        a@.algorithm == a.algorithm,
        a@.discoverable == a.discoverable,
{
}

/// Where the page shows the user's records: each part of what that says.
pub proof fn law_account_index_template_shows(
    page: AccountIndexTemplate,
    site: web::Site,
    session: web::UiSession,
    records: AccountRecords,
)
    requires
        page.shows(site, session, records),
    ensures
        page.mfa_enabled == is_enabled(records.mfa_enabled),
        text::views(page.passkey_credentials@) == passkey_rows(records.credentials),
        page.chrome.is_account_page(site, session, "account"@, records.is_admin),
{
}

/// Where the page holds an enrolment: each part of what that says.
pub proof fn law_totp_enroll_template_offers(
    page: TotpEnrollTemplate,
    enrollment: TotpEnrollment,
)
    requires
        page.offers(enrollment),
    ensures
        page.secret_base32 == enrollment.secret_base32,
        page.provisioning_uri == enrollment.provisioning_uri,
        page.recovery_codes == enrollment.recovery_codes,
{
}

/// Where the page holds no secret and no QR code, but these recovery codes: each
/// part of what that says.
pub proof fn law_totp_enroll_template_holds_only(
    page: TotpEnrollTemplate,
    recovery_codes: Seq<Seq<char>>,
)
    requires
        page.holds_only(recovery_codes),
    ensures
        page.secret_base32@ == Seq::<char>::empty(),
        page.provisioning_uri@ == Seq::<char>::empty(),
        page.qr_svg@ == Seq::<char>::empty(),
        text::texts(page.recovery_codes@) == recovery_codes,
{
}

/// Where the page offers to disable the second factor: each part of what that
/// says.
pub proof fn law_totp_enroll_template_is_disable_form(
    page: TotpEnrollTemplate,
    site: web::Site,
    session: web::UiSession,
    is_admin: bool,
)
    requires
        page.is_disable_form(site, session, is_admin),
    ensures
        page.mfa_enabled,
        page.holds_only(Seq::empty()),
        page.activation_error is None,
        page.is_for(site, session, is_admin),
{
}

/// Where the page shows an error in place of an enrolment: each part of what that
/// says.
pub proof fn law_totp_enroll_template_is_error_form(
    page: TotpEnrollTemplate,
    site: web::Site,
    session: web::UiSession,
    is_admin: bool,
    error: Seq<char>,
)
    requires
        page.is_error_form(site, session, is_admin, error),
    ensures
        !page.mfa_enabled,
        page.holds_only(Seq::empty()),
        text::opt_text(page.activation_error) == Some(error),
        page.is_for(site, session, is_admin),
{
}

/// The second factor counts as enabled only where it is known to be, and the
/// passkeys are those that could be read.
pub proof fn law_account_records(records: AccountRecords)
    ensures
        is_enabled(records.mfa_enabled) <==> records.mfa_enabled == Ok::<bool, web::EngineError>(
            true,
        ),
        records.credentials is Err ==> passkey_rows(records.credentials).len() == 0,
        records.credentials matches Ok(items) ==> passkey_rows(records.credentials)
            == users::cred_rows(items@),
{
}

/// A refused change of password is told above the form, and nowhere else.
pub proof fn law_password_error(
    r: web::Reply<AccountIndexTemplate>,
    site: web::Site,
    session: web::UiSession,
    records: AccountRecords,
    error: Seq<char>,
)
    requires
        tells_password_error(r, site, session, records, error),
    ensures
        r matches web::Reply::Page(p) && p.password_error matches Some(e) && e@ == error
            && p.chrome.flash is None && p.mfa_enabled == is_enabled(records.mfa_enabled),
{
}

/// An error of the second factor is told only where the second factor is off;
/// where it is on, the page offers to turn it off. No secret is shown either way.
pub proof fn law_totp_error(
    r: web::Reply<TotpEnrollTemplate>,
    site: web::Site,
    session: web::UiSession,
    is_admin: bool,
    mfa: Result<bool, web::EngineError>,
    error: Seq<char>,
)
    requires
        tells_totp_error(r, site, session, is_admin, mfa, error),
    ensures
        r matches web::Reply::Page(p) && p.mfa_enabled == is_enabled(mfa) && p.secret_base32@.len()
            == 0 && p.provisioning_uri@.len() == 0 && p.qr_svg@.len() == 0
            && p.recovery_codes@.len() == 0 && (p.activation_error is Some <==> !is_enabled(mfa))
            && (p.activation_error matches Some(e) ==> e@ == error),
{
    let p = r->Page_0;
    assert(text::texts(p.recovery_codes@).len() == p.recovery_codes@.len());
}

/// The relying party is the host without its port, and the origin is the host
/// behind its scheme: plain only on the local machine.
pub proof fn law_origin(header: Option<String>, host: Seq<char>)
    ensures
        header matches Some(h) ==> host_of(header) == h@,
        header is None ==> host_of(header) == "localhost"@,
        !rp_id_of(host).contains(':'),
        text::has_prefix(host, rp_id_of(host)),
        text::has_prefix(host, "localhost"@) || text::has_prefix(host, "127.0.0.1"@) ==> origin_of(
            host,
        ) == "http://"@ + host,
        !text::has_prefix(host, "localhost"@) && !text::has_prefix(host, "127.0.0.1"@) ==> origin_of(
            host,
        ) == "https://"@ + host,
{
    let colon = text::Separator::Char(':');
    reveal_strlit("http");
    reveal_strlit("https");
    reveal_strlit("://");
    reveal_strlit("http://");
    reveal_strlit("https://");
    assert("http"@ + "://"@ =~= "http://"@);
    assert("https"@ + "://"@ =~= "https://"@);
    text::law_split(host, ':');
    text::lemma_split_nonempty(host, colon);
    let pieces = text::split_pieces(host, colon);
    text::lemma_joined_prefix(pieces, seq![':']);
}

/// A refusal is a bad request with that text.
pub proof fn law_plain_refuses(reply: PlainReply, body: Seq<char>)
    ensures
        reply.refuses(body) <==> reply.bad_request && reply.body@ == body,
{
}

/// Every page of the second factor is one of the account, without a message.
pub proof fn law_totp_page(
    page: TotpEnrollTemplate,
    site: web::Site,
    session: web::UiSession,
    is_admin: bool,
)
    requires
        page.is_for(site, session, is_admin),
    ensures
        page.chrome.is_account_page(site, session, "account"@, is_admin),
        page.chrome.flash is None,
{
}

} // verus!
