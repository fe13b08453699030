//! Consents that users gave to applications: the user's own page, and that of
//! the console.

use crate::calendar;
use crate::codec;
use crate::text;
use crate::users;
use crate::web;
use vstd::prelude::*;
use vstd::string::*;

verus! {

/// A consent as the engine knows it.
pub struct ConsentEntry {
    pub client_id: u128,
    pub client_name: String,
    pub client_logo_url: Option<String>,
    pub granted_scopes: Vec<String>,
    pub granted_at: i64,
    pub updated_at: i64,
}

/// A row without its representation.
#[verifier::ext_equal]
pub struct ConsentLine {
    pub client_id: Seq<char>,
    pub client_name: Seq<char>,
    pub client_logo_url: Option<Seq<char>>,
    pub scopes: Seq<Seq<char>>,
    pub granted_at: Seq<char>,
    pub updated_at: Seq<char>,
}

/// The row of a consent.
pub open spec fn consent_line(e: ConsentEntry) -> ConsentLine {
    ConsentLine {
        client_id: codec::hyphenated(e.client_id),
        client_name: e.client_name@,
        client_logo_url: text::opt_text(e.client_logo_url),
        scopes: text::texts(e.granted_scopes@),
        granted_at: calendar::instant_text(e.granted_at as int),
        updated_at: calendar::instant_text(e.updated_at as int),
    }
}

/// The rows of the consents that the engine listed; none where it failed.
pub open spec fn consent_lines(listed: Result<Vec<ConsentEntry>, web::EngineError>) -> Seq<
    ConsentLine,
> {
    match listed {
        Ok(items) => Seq::new(items@.len(), |i: int| consent_line(items@[i])),
        Err(_) => Seq::empty(),
    }
}

// ---------------------------------------------------------------------------
// The user's own consents
// ---------------------------------------------------------------------------

/// A consent on the user's page.
pub struct ConsentRow {
    pub client_id: String,
    pub client_name: String,
    pub client_logo_url: Option<String>,
    pub scopes: Vec<String>,
    pub granted_at: String,
    pub updated_at: String,
}

impl View for ConsentRow {
    type V = ConsentLine;

    open spec fn view(&self) -> ConsentLine {
        ConsentLine {
            client_id: self.client_id@,
            client_name: self.client_name@,
            client_logo_url: text::opt_text(self.client_logo_url),
            scopes: text::texts(self.scopes@),
            granted_at: self.granted_at@,
            updated_at: self.updated_at@,
        }
    }
}

/// Makes the rows of the user's consents.
pub fn load_consents(listed: &Result<Vec<ConsentEntry>, web::EngineError>) -> (r: Vec<ConsentRow>)
    ensures
        text::views(r@) == consent_lines(*listed),
{
    let mut out: Vec<ConsentRow> = Vec::new();
    if let Ok(items) = listed {
        let mut i: usize = 0;
        while i < items.len()
            invariant
                i <= items.len(),
                out.len() == i,
                forall|j: int| 0 <= j < i ==> (#[trigger] out@[j])@ == consent_line(items@[j]),
            decreases items.len() - i,
        {
            let e = &items[i];
            out.push(
                ConsentRow {
                    client_id: codec::uuid_text(e.client_id),
                    client_name: e.client_name.clone(),
                    client_logo_url: text::clone_opt(&e.client_logo_url),
                    scopes: text::clone_all(&e.granted_scopes),
                    granted_at: calendar::format_ts(e.granted_at),
                    updated_at: calendar::format_ts(e.updated_at),
                },
            );
            i += 1;
        }
    }
    proof {
        assert(text::views(out@) =~= consent_lines(*listed));
    }
    out
}

/// The user's page.
pub struct ConsentsIndexTemplate {
    pub consents: Vec<ConsentRow>,
    pub chrome: web::Chrome,
}

impl ConsentsIndexTemplate {
    /// The page with the given rows.
    pub fn new(
        site: &web::Site,
        session: &web::UiSession,
        consents: Vec<ConsentRow>,
        is_admin: bool,
    ) -> (r: ConsentsIndexTemplate)
        ensures
            r.consents == consents,
            r.chrome.is_account_page(*site, *session, "account"@, is_admin),
            r.chrome.flash is None,
    {
        ConsentsIndexTemplate {
            consents,
            chrome: web::Chrome::new(site, session, "account", is_admin, true, None),
        }
    }
}

/// The page of connected applications.
pub struct AccountApplicationsTemplate {
    pub consents: Vec<ConsentRow>,
    pub chrome: web::Chrome,
}

/// Shows the connected applications.
pub fn account_applications(
    site: &web::Site,
    session: &web::UiSession,
    is_admin: bool,
    listed: &Result<Vec<ConsentEntry>, web::EngineError>,
) -> (r: web::Reply<AccountApplicationsTemplate>)
    ensures
        r is Page && text::views(r->Page_0.consents@) == consent_lines(*listed)
            && r->Page_0.chrome.is_account_page(*site, *session, "account"@, is_admin)
            && r->Page_0.chrome.flash is None,
{
    web::Reply::Page(
        AccountApplicationsTemplate {
            consents: load_consents(listed),
            chrome: web::Chrome::new(site, session, "account", is_admin, true, None),
        },
    )
}

/// Shows the consents under the older layout.
pub fn consents_index(
    site: &web::Site,
    session: &web::UiSession,
    is_admin: bool,
    listed: &Result<Vec<ConsentEntry>, web::EngineError>,
) -> (r: web::Reply<ConsentsIndexTemplate>)
    ensures
        r is Page && text::views(r->Page_0.consents@) == consent_lines(*listed)
            && r->Page_0.chrome.is_account_page(*site, *session, "account"@, is_admin)
            && r->Page_0.chrome.flash is None,
{
    web::Reply::Page(ConsentsIndexTemplate::new(site, session, load_consents(listed), is_admin))
}

/// A form that holds nothing but the CSRF token.
pub struct CsrfOnlyForm {
    pub csrf: String,
}

/// Reads which application's consent is to be revoked.
pub fn revoke_consent_request(csrf_ok: bool, client_id: &str) -> (r: Result<u128, web::Reply<()>>)
    ensures
        web::names_one(r, csrf_ok, client_id@, "Consent not found"@),
{
    web::require_one(csrf_ok, client_id, "Consent not found")
}

/// What is noted of a consent that a user revoked.
pub open spec fn self_metadata(client_id: u128) -> Seq<(Seq<char>, web::MetaView)> {
    seq![
        ("via"@, web::MetaView::Text("self"@)),
        ("client_id"@, web::MetaView::Text(codec::hyphenated(client_id))),
    ]
}

/// The event of a consent that a user revoked.
pub open spec fn self_event(session: web::UiSession, client_id: u128) -> web::AuditEventView {
    web::ui_event(
        session,
        session.realm_id,
        web::AuditAction::ConsentRevoked,
        "oauth_client"@,
        codec::hyphenated(client_id),
        self_metadata(client_id),
    )
}

/// Records that a user revoked a consent, alone or together with all others.
fn record_self(session: &web::UiSession, client_id: u128, batch: bool) -> (r: web::AuditEvent)
    ensures
        r@ == if batch {
            batch_event(*session, client_id)
        } else {
            self_event(*session, client_id)
        },
{
    let id = codec::uuid_text(client_id);
    let mut metadata: Vec<(String, web::Meta)> = Vec::new();
    metadata.push(web::meta_text("via", "self"));
    metadata.push(web::meta_text("client_id", id.as_str()));
    if batch {
        metadata.push(("batch".to_owned(), web::Meta::Flag(true)));
    }
    let event = web::record(
        session,
        session.realm_id,
        web::AuditAction::ConsentRevoked,
        "oauth_client",
        id.as_str(),
        metadata,
    );
    proof {
        if batch {
            assert(event@.metadata =~= batch_event(*session, client_id).metadata);
        } else {
            assert(event@.metadata =~= self_metadata(client_id));
        }
    }
    event
}

/// Answers after the engine tried to revoke the consent; a revocation is logged
/// as the user's own.
pub fn revoke_consent(
    session: &web::UiSession,
    client_id: u128,
    revoked: Result<(), web::EngineError>,
) -> (r: web::Outcome<()>)
    ensures
        match revoked {
            Ok(_) => r.reply.redirects("/ui/account/applications"@) && r.log() == seq![
                self_event(*session, client_id),
            ],
            Err(e) => r.is_silent() && if e.kind is ConsentNotFound {
                r.reply.not_found("Consent not found"@)
            } else {
                r.reply is ServerError
            },
        },
{
    match revoked {
        Ok(_) => web::Outcome::logged(
            web::Reply::redirect("/ui/account/applications"),
            record_self(session, client_id, false),
        ),
        Err(e) => match e.kind {
            web::ErrorKind::ConsentNotFound => web::Outcome::silent(
                web::Reply::missing("Consent not found"),
            ),
            _ => web::Outcome::silent(web::Reply::ServerError),
        },
    }
}

/// Lists the applications whose consents are to be revoked: all of them.
pub fn revoke_all_consents_targets(
    csrf_ok: bool,
    listed: Result<Vec<ConsentEntry>, web::EngineError>,
) -> (r: Result<Vec<u128>, web::Reply<()>>)
    ensures
        !csrf_ok ==> r is Err && r->Err_0 is Forbidden,
        csrf_ok ==> match listed {
            Err(_) => r is Err && r->Err_0 is ServerError,
            Ok(items) => r is Ok && r->Ok_0@ == Seq::new(
                items@.len(),
                |i: int| items@[i].client_id,
            ),
        },
{
    if !csrf_ok {
        return Err(web::Reply::Forbidden);
    }
    let items = match listed {
        Ok(items) => items,
        Err(_) => return Err(web::Reply::ServerError),
    };
    let mut ids: Vec<u128> = Vec::new();
    let mut i: usize = 0;
    while i < items.len()
        invariant
            i <= items.len(),
            ids.len() == i,
            forall|j: int| 0 <= j < i ==> #[trigger] ids@[j] == items@[j].client_id,
        decreases items.len() - i,
    {
        ids.push(items[i].client_id);
        i += 1;
    }
    proof {
        assert(ids@ =~= Seq::new(items@.len(), |i: int| items@[i].client_id));
    }
    Ok(ids)
}

/// The event of a consent that a user revoked together with all others.
pub open spec fn batch_event(session: web::UiSession, client_id: u128) -> web::AuditEventView {
    web::ui_event(
        session,
        session.realm_id,
        web::AuditAction::ConsentRevoked,
        "oauth_client"@,
        codec::hyphenated(client_id),
        self_metadata(client_id).push(("batch"@, web::MetaView::Flag(true))),
    )
}

/// Tells what to log of one of them: its revocation, where it succeeded.
pub fn revoke_all_consents_event(
    session: &web::UiSession,
    client_id: u128,
    revoked: &Result<(), web::EngineError>,
) -> (r: Option<web::AuditEvent>)
    ensures
        r is Some <==> revoked is Ok,
        r is Some ==> r->0@ == batch_event(*session, client_id),
{
    if revoked.is_ok() {
        Some(record_self(session, client_id, true))
    } else {
        None
    }
}

/// The events of the revocations that succeeded, in order.
pub open spec fn batch_events(
    session: web::UiSession,
    results: Seq<(u128, Result<(), web::EngineError>)>,
) -> Seq<web::AuditEventView>
    decreases results.len(),
{
    if results.len() == 0 {
        Seq::empty()
    } else {
        let before = batch_events(session, results.drop_last());
        let (client_id, revoked) = results.last();
        if revoked is Ok {
            before.push(batch_event(session, client_id))
        } else {
            before
        }
    }
}

/// Answers after the engine tried to revoke all of them, whatever came of it;
/// each revocation that succeeded is logged.
pub fn revoke_all_consents(
    session: &web::UiSession,
    results: &Vec<(u128, Result<(), web::EngineError>)>,
) -> (r: web::Outcome<()>)
    ensures
        r.reply.redirects("/ui/account/applications"@),
        r.log() == batch_events(*session, results@),
{
    let mut events: Vec<web::AuditEvent> = Vec::new();
    let mut i: usize = 0;
    proof {
        assert(web::events_of(events@) =~= batch_events(*session, results@.take(0)));
    }
    while i < results.len()
        invariant
            i <= results.len(),
            web::events_of(events@) == batch_events(*session, results@.take(i as int)),
        decreases results.len() - i,
    {
        let ghost before = events@;
        proof {
            assert(results@.take(i + 1).drop_last() =~= results@.take(i as int));
        }
        if let Some(event) = revoke_all_consents_event(session, results[i].0, &results[i].1) {
            events.push(event);
            proof {
                assert(web::events_of(events@) =~= web::events_of(before).push(event@));
            }
        }
        i += 1;
    }
    proof {
        assert(results@.take(results@.len() as int) =~= results@);
    }
    web::Outcome { reply: web::Reply::redirect("/ui/account/applications"), events }
}

/// Where every revocation succeeds, each consent is logged once, in order.
pub proof fn law_batch_is_logged(
    session: web::UiSession,
    results: Seq<(u128, Result<(), web::EngineError>)>,
)
    requires
        forall|i: int| 0 <= i < results.len() ==> (#[trigger] results[i]).1 is Ok,
    ensures
        batch_events(session, results) == Seq::new(
            results.len(),
            |i: int| batch_event(session, results[i].0),
        ),
    decreases results.len(),
{
    if results.len() > 0 {
        law_batch_is_logged(session, results.drop_last());
    }
    assert(batch_events(session, results) =~= Seq::new(
        results.len(),
        |i: int| batch_event(session, results[i].0),
    ));
}

// ---------------------------------------------------------------------------
// The console's page of a user's consents
// ---------------------------------------------------------------------------

/// A consent on the console's page.
pub struct AdminConsentRow {
    pub client_id: String,
    pub client_name: String,
    pub client_logo_url: Option<String>,
    pub scopes: Vec<String>,
    pub granted_at: String,
    pub updated_at: String,
}

impl View for AdminConsentRow {
    type V = ConsentLine;

    open spec fn view(&self) -> ConsentLine {
        ConsentLine {
            client_id: self.client_id@,
            client_name: self.client_name@,
            client_logo_url: text::opt_text(self.client_logo_url),
            scopes: text::texts(self.scopes@),
            granted_at: self.granted_at@,
            updated_at: self.updated_at@,
        }
    }
}

fn admin_rows(listed: &Result<Vec<ConsentEntry>, web::EngineError>) -> (r: Vec<AdminConsentRow>)
    ensures
        text::views(r@) == consent_lines(*listed),
{
    let mut out: Vec<AdminConsentRow> = Vec::new();
    if let Ok(items) = listed {
        let mut i: usize = 0;
        while i < items.len()
            invariant
                i <= items.len(),
                out.len() == i,
                forall|j: int| 0 <= j < i ==> (#[trigger] out@[j])@ == consent_line(items@[j]),
            decreases items.len() - i,
        {
            let e = &items[i];
            out.push(
                AdminConsentRow {
                    client_id: codec::uuid_text(e.client_id),
                    client_name: e.client_name.clone(),
                    client_logo_url: text::clone_opt(&e.client_logo_url),
                    scopes: text::clone_all(&e.granted_scopes),
                    granted_at: calendar::format_ts_admin(e.granted_at),
                    updated_at: calendar::format_ts_admin(e.updated_at),
                },
            );
            i += 1;
        }
    }
    proof {
        assert(text::views(out@) =~= consent_lines(*listed));
    }
    out
}

/// The console's page.
pub struct AdminUserConsentsTemplate {
    pub target_user_id: String,
    pub target_user_email: String,
    pub consents: Vec<AdminConsentRow>,
    pub realm_name: String,
    pub chrome: web::Chrome,
}

/// Reads whose consents are to be shown.
pub fn admin_user_consents_list_request(user_id: &str) -> (r: Result<
    u128,
    web::Reply<AdminUserConsentsTemplate>,
>)
    ensures
        web::names_one(r, true, user_id@, "User not found"@),
{
    web::require_one(true, user_id, "User not found")
}

/// Shows the consents of a user.
pub fn admin_user_consents_list(
    site: &web::Site,
    session: &web::UiSession,
    target: &web::TargetRealm,
    user_id: u128,
    found: Result<Option<users::User>, web::EngineError>,
    listed: &Result<Vec<ConsentEntry>, web::EngineError>,
) -> (r: web::Reply<AdminUserConsentsTemplate>)
    ensures
        match found {
            Err(_) => r is ServerError,
            Ok(None) => r.not_found("User not found"@),
            Ok(Some(user)) => r is Page && {
                let p = r->Page_0;
                &&& p.target_user_id@ == codec::hyphenated(user_id)
                &&& p.target_user_email@ == user.email@
                &&& text::views(p.consents@) == consent_lines(*listed)
                &&& p.realm_name@ == target.name@
                &&& p.chrome.is_admin_page(*site, *session, "users"@)
                &&& p.chrome.flash is None
            },
        },
{
    match found {
        Err(_) => web::Reply::ServerError,
        Ok(None) => web::Reply::missing("User not found"),
        Ok(Some(user)) => web::Reply::Page(
            AdminUserConsentsTemplate {
                target_user_id: codec::uuid_text(user_id),
                target_user_email: user.email,
                consents: admin_rows(listed),
                realm_name: target.name.clone(),
                chrome: web::Chrome::admin(site, session, "users"),
            },
        ),
    }
}

/// Reads which consent of which user is to be revoked.
pub fn admin_user_consent_revoke_request(csrf_ok: bool, user_id: &str, client_id: &str) -> (r:
    Result<(u128, u128), web::Reply<()>>)
    ensures
        web::names_two(
            r,
            csrf_ok,
            user_id@,
            "User not found"@,
            client_id@,
            "Client not found"@,
        ),
{
    web::require_two(csrf_ok, user_id, "User not found", client_id, "Client not found")
}

/// The event of a consent that an administrator revoked for a user.
pub open spec fn consent_event(
    session: web::UiSession,
    realm_id: u128,
    user_id: u128,
    client_id: u128,
) -> web::AuditEventView {
    web::ui_event(
        session,
        realm_id,
        web::AuditAction::ConsentRevoked,
        "oauth_client"@,
        codec::hyphenated(client_id),
        seq![
            ("via"@, web::MetaView::Text("admin"@)),
            ("target_user"@, web::MetaView::Text(codec::hyphenated(user_id))),
            ("client_id"@, web::MetaView::Text(codec::hyphenated(client_id))),
        ],
    )
}

/// Answers after the engine tried to revoke the consent.
pub fn admin_user_consent_revoke(
    session: &web::UiSession,
    realm_id: u128,
    user_id: u128,
    client_id: u128,
    revoked: Result<(), web::EngineError>,
) -> (r: web::Outcome<()>)
    ensures
        match revoked {
            Ok(_) => {
                &&& r.log() == seq![consent_event(*session, realm_id, user_id, client_id)]
                &&& r.reply.redirects(
                    "/ui/admin/users/"@ + codec::hyphenated(user_id) + "/applications"@,
                )
            },
            Err(e) => r.is_silent() && if e.kind is ConsentNotFound {
                r.reply.not_found("Consent not found"@)
            } else {
                r.reply is ServerError
            },
        },
{
    match revoked {
        Ok(_) => {
            let user = codec::uuid_text(user_id);
            let client = codec::uuid_text(client_id);
            let mut metadata: Vec<(String, web::Meta)> = Vec::new();
            metadata.push(web::meta_text("via", "admin"));
            metadata.push(web::meta_text("target_user", user.as_str()));
            metadata.push(web::meta_text("client_id", client.as_str()));
            let event = web::record(
                session,
                realm_id,
                web::AuditAction::ConsentRevoked,
                "oauth_client",
                client.as_str(),
                metadata,
            );
            proof {
                assert(event@.metadata =~= consent_event(
                    *session,
                    realm_id,
                    user_id,
                    client_id,
                ).metadata);
            }
            let url = "/ui/admin/users/".to_owned().concat(user.as_str()).concat("/applications");
            web::Outcome::logged(web::Reply::Redirect(url), event)
        },
        Err(e) => match e.kind {
            web::ErrorKind::ConsentNotFound => web::Outcome::silent(
                web::Reply::missing("Consent not found"),
            ),
            _ => web::Outcome::silent(web::Reply::ServerError),
        },
    }
}

// ---------------------------------------------------------------------------
// What a consent shows and what its end leaves behind
// ---------------------------------------------------------------------------

/// Each line tells of the consent at its place: which application, what it may
/// do, since when, and when that was last changed.
pub proof fn law_consent_lines(listed: Result<Vec<ConsentEntry>, web::EngineError>, i: int)
    ensures
        listed is Err ==> consent_lines(listed).len() == 0,
        listed matches Ok(items) ==> consent_lines(listed).len() == items@.len(),
        listed matches Ok(items) ==> (0 <= i < items@.len() ==> {
            let line = consent_lines(listed)[i];
            let e = items@[i];
            &&& line.client_id == codec::hyphenated(e.client_id)
            &&& line.client_name == e.client_name@
            &&& line.client_logo_url == text::opt_text(e.client_logo_url)
            &&& line.scopes == text::texts(e.granted_scopes@)
            &&& line.granted_at == calendar::instant_text(e.granted_at as int)
            &&& line.updated_at == calendar::instant_text(e.updated_at as int)
        }),
{
}

/// What is seen of a row is what the row holds, on both pages.
pub proof fn law_consent_rows(own: ConsentRow, other: AdminConsentRow)
    ensures
        own@.client_id == own.client_id@,
        own@.client_name == own.client_name@,
        own@.client_logo_url == text::opt_text(own.client_logo_url),
        own@.scopes == text::texts(own.scopes@),
        own@.granted_at == own.granted_at@,
        own@.updated_at == own.updated_at@,
        other@.client_id == other.client_id@,
        other@.client_name == other.client_name@,
        other@.client_logo_url == text::opt_text(other.client_logo_url),
        other@.scopes == text::texts(other.scopes@),
        other@.granted_at == other.granted_at@,
        other@.updated_at == other.updated_at@,
{
}

/// Taking back an own consent is recorded of the application, as done by the
/// person; taking back all of them marks each event as one of many.
pub proof fn law_self_events(session: web::UiSession, client_id: u128)
    ensures
        ({
            let e = self_event(session, client_id);
            &&& e.realm_id == session.realm_id
            &&& e.actor == codec::hyphenated(session.user_id)
            &&& e.action is ConsentRevoked
            &&& e.resource_type == "oauth_client"@
            &&& e.resource_id == codec::hyphenated(client_id)
            &&& web::told(e.metadata, "via"@) == Some(web::MetaView::Text("self"@))
            &&& web::told(e.metadata, "client_id"@) == Some(
                web::MetaView::Text(codec::hyphenated(client_id)),
            )
            &&& web::told(e.metadata, "batch"@) is None
        }),
        ({
            let e = batch_event(session, client_id);
            &&& e.realm_id == session.realm_id
            &&& e.actor == codec::hyphenated(session.user_id)
            &&& e.action is ConsentRevoked
            &&& e.resource_type == "oauth_client"@
            &&& e.resource_id == codec::hyphenated(client_id)
            &&& web::told(e.metadata, "via"@) == Some(web::MetaView::Text("self"@))
            &&& web::told(e.metadata, "client_id"@) == Some(
                web::MetaView::Text(codec::hyphenated(client_id)),
            )
            &&& web::told(e.metadata, "batch"@) == Some(web::MetaView::Flag(true))
        }),
{
    reveal_strlit("via");
    reveal_strlit("client_id");
    reveal_strlit("batch");
    assert("via"@.len() == 3 && "client_id"@.len() == 9 && "batch"@.len() == 5);
    let m = self_metadata(client_id);
    assert(m.last().0 == "client_id"@);
    assert(m.drop_last().last().0 == "via"@);
    assert(m.drop_last().drop_last().len() == 0);
    reveal_with_fuel(web::told, 3);
    let flag = web::MetaView::Flag(true);
    web::lemma_told_push(m, "batch"@, flag, "via"@);
    web::lemma_told_push(m, "batch"@, flag, "client_id"@);
    web::lemma_told_push(m, "batch"@, flag, "batch"@);
}

/// An administrator who takes back a consent is recorded as such, with the person
/// whose consent it was and the application.
pub proof fn law_consent_event(
    session: web::UiSession,
    realm_id: u128,
    user_id: u128,
    client_id: u128,
)
    ensures
        ({
            let e = consent_event(session, realm_id, user_id, client_id);
            &&& e.realm_id == realm_id
            &&& e.actor == codec::hyphenated(session.user_id)
            &&& e.action is ConsentRevoked
            &&& e.resource_type == "oauth_client"@
            &&& e.resource_id == codec::hyphenated(client_id)
            &&& web::told(e.metadata, "via"@) == Some(web::MetaView::Text("admin"@))
            &&& web::told(e.metadata, "target_user"@) == Some(
                web::MetaView::Text(codec::hyphenated(user_id)),
            )
            &&& web::told(e.metadata, "client_id"@) == Some(
                web::MetaView::Text(codec::hyphenated(client_id)),
            )
        }),
{
    reveal_strlit("via");
    reveal_strlit("target_user");
    reveal_strlit("client_id");
    assert("via"@.len() == 3 && "client_id"@.len() == 9 && "target_user"@.len() == 11);
    let m = consent_event(session, realm_id, user_id, client_id).metadata;
    assert(m.last().0 == "client_id"@);
    assert(m.drop_last().last().0 == "target_user"@);
    assert(m.drop_last().drop_last().last().0 == "via"@);
    reveal_with_fuel(web::told, 4);
}

/// Exactly the consents that were taken back are recorded, in their order, each
/// of its own application.
pub proof fn law_batch_events(
    session: web::UiSession,
    results: Seq<(u128, Result<(), web::EngineError>)>,
)
    ensures
        batch_events(session, results) == results.filter(
            |x: (u128, Result<(), web::EngineError>)| x.1 is Ok,
        ).map_values(
            |x: (u128, Result<(), web::EngineError>)| batch_event(session, x.0),
        ),
    decreases results.len(),
{
    let keep = |x: (u128, Result<(), web::EngineError>)| x.1 is Ok;
    let row = |x: (u128, Result<(), web::EngineError>)| batch_event(session, x.0);
    reveal(Seq::filter);
    if results.len() > 0 {
        law_batch_events(session, results.drop_last());
        let before = results.drop_last().filter(keep);
        if keep(results.last()) {
            assert(before.push(results.last()).map_values(row) =~= before.map_values(row).push(
                row(results.last()),
            ));
        }
    } else {
        assert(results.filter(keep).map_values(row) =~= Seq::<web::AuditEventView>::empty());
    }
}

} // verus!
