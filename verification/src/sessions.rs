//! Sessions: the lists that show them and the actions that end them.

use crate::audit;
use crate::calendar;
use crate::codec;
use crate::order;
use crate::query;
use crate::text;
use crate::web;
use vstd::prelude::*;
use vstd::string::*;

verus! {

/// A session as the engine knows it.
pub struct SessionInfo {
    pub id: u128,
    pub user_id: u128,
    pub created_at: i64,
    pub last_refreshed_at: i64,
    pub expires_at: i64,
    pub revoked: bool,
    pub device_label: Option<String>,
    pub ip_address: Option<String>,
}

/// The number of sessions on a page where a user's own ones are listed.
pub const OWN_SESSIONS_PAGE: usize = 50;

/// The number of sessions on a page where a user's other ones are revoked.
pub const OTHER_SESSIONS_PAGE: usize = 100;

/// A page of a list.
pub struct Page<T> {
    pub items: Vec<T>,
    pub next_cursor: Option<String>,
}

/// The text of an optional string, or a default.
pub open spec fn text_or(o: Option<String>, default: Seq<char>) -> Seq<char> {
    match o {
        Some(s) => s@,
        None => default,
    }
}

/// A copy of an optional string, or a default.
pub fn or_default(o: &Option<String>, default: &str) -> (r: String)
    ensures
        r@ == text_or(*o, default@),
{
    match o {
        Some(s) => s.clone(),
        None => default.to_owned(),
    }
}

// ---------------------------------------------------------------------------
// The signed-in user's own sessions
// ---------------------------------------------------------------------------

/// A session on the "My Sessions" page.
pub struct AccountSessionRow {
    /// Session UUID.
    pub id: String,
    /// The device, as far as it is known.
    pub device_label: String,
    /// The client's address, or a dash.
    pub ip_address: String,
    /// When the session began.
    pub created_at: String,
    /// When it was last refreshed.
    pub last_active: String,
    /// When it ends.
    pub expires_at: String,
    /// Whether this is the session of the request.
    pub is_current: bool,
}

/// An own session without its representation.
#[verifier::ext_equal]
pub struct OwnSession {
    pub id: Seq<char>,
    pub device_label: Seq<char>,
    pub ip_address: Seq<char>,
    pub created_at: Seq<char>,
    pub last_active: Seq<char>,
    pub expires_at: Seq<char>,
    pub is_current: bool,
}

impl View for AccountSessionRow {
    type V = OwnSession;

    open spec fn view(&self) -> OwnSession {
        OwnSession {
            id: self.id@,
            device_label: self.device_label@,
            ip_address: self.ip_address@,
            created_at: self.created_at@,
            last_active: self.last_active@,
            expires_at: self.expires_at@,
            is_current: self.is_current,
        }
    }
}

/// The row of an own session.
pub open spec fn own_session(s: SessionInfo, current: u128) -> OwnSession {
    OwnSession {
        id: codec::hyphenated(s.id),
        device_label: text_or(s.device_label, "Unknown device"@),
        ip_address: text_or(s.ip_address, "—"@),
        created_at: calendar::instant_text(s.created_at as int),
        last_active: calendar::instant_text(s.last_refreshed_at as int),
        expires_at: calendar::instant_text(s.expires_at as int),
        is_current: s.id == current,
    }
}

/// The rows of the own sessions that are not revoked.
pub open spec fn own_sessions(items: Seq<SessionInfo>, current: u128) -> Seq<OwnSession>
    decreases items.len(),
{
    if items.len() == 0 {
        Seq::empty()
    } else {
        let before = own_sessions(items.drop_last(), current);
        if items.last().revoked {
            before
        } else {
            before.push(own_session(items.last(), current))
        }
    }
}

/// Adds a page of the signed-in user's sessions to the rows; gives the cursor
/// of the next page.
pub fn load_session_rows(
    session: &web::UiSession,
    page: Page<SessionInfo>,
    out: &mut Vec<AccountSessionRow>,
) -> (next: Option<String>)
    ensures
        text::views(final(out)@) == text::views(old(out)@) + own_sessions(
            page.items@,
            session.session_id,
        ),
        next == page.next_cursor,
{
    let items = &page.items;
    let mut i: usize = 0;
    proof {
        assert(text::views(out@) =~= text::views(old(out)@) + own_sessions(
            items@.take(0),
            session.session_id,
        ));
    }
    while i < items.len()
        invariant
            i <= items.len(),
            text::views(out@) == text::views(old(out)@) + own_sessions(
                items@.take(i as int),
                session.session_id,
            ),
        decreases items.len() - i,
    {
        let s = &items[i];
        let ghost before = out@;
        proof {
            assert(items@.take(i + 1).drop_last() =~= items@.take(i as int));
        }
        if !s.revoked {
            let row = AccountSessionRow {
                id: codec::uuid_text(s.id),
                device_label: or_default(&s.device_label, "Unknown device"),
                ip_address: or_default(&s.ip_address, "—"),
                created_at: calendar::format_ts(s.created_at),
                last_active: calendar::format_ts(s.last_refreshed_at),
                expires_at: calendar::format_ts(s.expires_at),
                is_current: s.id == session.session_id,
            };
            proof {
                text::lemma_views_push(before, row);
            }
            out.push(row);
        }
        proof {
            assert(text::views(out@) =~= text::views(old(out)@) + own_sessions(
                items@.take(i + 1),
                session.session_id,
            ));
        }
        i += 1;
    }
    proof {
        assert(items@.take(items@.len() as int) =~= items@);
    }
    page.next_cursor
}

/// The "My Sessions" page.
pub struct AccountSessionsTemplate {
    pub sessions: Vec<AccountSessionRow>,
    pub chrome: web::Chrome,
}

impl AccountSessionsTemplate {
    /// The page with the given rows.
    pub fn new(
        site: &web::Site,
        session: &web::UiSession,
        sessions: Vec<AccountSessionRow>,
        is_admin: bool,
    ) -> (r: AccountSessionsTemplate)
        ensures
            r.sessions == sessions,
            r.chrome.is_account_page(*site, *session, "account"@, is_admin),
            r.chrome.flash is None,
    {
        AccountSessionsTemplate {
            sessions,
            chrome: web::Chrome::new(site, session, "account", is_admin, true, None),
        }
    }
}

/// Shows the signed-in user's sessions.
pub fn sessions_index(
    site: &web::Site,
    session: &web::UiSession,
    sessions: Vec<AccountSessionRow>,
    is_admin: bool,
) -> (r: web::Reply<AccountSessionsTemplate>)
    ensures
        r matches web::Reply::Page(p) && p.sessions == sessions && p.chrome.is_account_page(
            *site,
            *session,
            "account"@,
            is_admin,
        ) && p.chrome.flash is None,
{
    web::Reply::Page(AccountSessionsTemplate::new(site, session, sessions, is_admin))
}

/// The form that revokes sessions.
pub struct RevokeSessionForm {
    pub csrf: String,
}

/// Reads which session to revoke.
pub fn revoke_session_request(csrf_ok: bool, sid: &str) -> (r: Result<u128, web::Reply<()>>)
    ensures
        !csrf_ok ==> r is Err && r->Err_0 is Forbidden,
        csrf_ok ==> match codec::uuid_of(sid@) {
            Some(id) => r == Ok::<u128, web::Reply<()>>(id),
            None => r is Err && r->Err_0.not_found("Session not found"@),
        },
{
    if !csrf_ok {
        return Err(web::Reply::Forbidden);
    }
    match codec::parse_uuid(sid) {
        Some(id) => Ok(id),
        None => Err(web::Reply::missing("Session not found")),
    }
}

/// Decides whether the signed-in user may revoke the session that was found:
/// it has to be an own one. Says whether it is the session of the request.
pub fn revoke_session_check(
    session: &web::UiSession,
    found: Result<Option<SessionInfo>, web::EngineError>,
) -> (r: Result<bool, web::Reply<()>>)
    ensures
        match found {
            Err(_) => r is Err && r->Err_0 is ServerError,
            Ok(None) => r is Err && r->Err_0.not_found("Session not found"@),
            Ok(Some(s)) => if s.user_id == session.user_id {
                r == Ok::<bool, web::Reply<()>>(s.id == session.session_id)
            } else {
                r is Err && r->Err_0.not_found("Session not found"@)
            },
        },
{
    match found {
        Err(_) => Err(web::Reply::ServerError),
        Ok(None) => Err(web::Reply::missing("Session not found")),
        Ok(Some(s)) => if s.user_id == session.user_id {
            Ok(s.id == session.session_id)
        } else {
            Err(web::Reply::missing("Session not found"))
        },
    }
}

/// Whether a revocation left the session revoked: it worked, or the session was
/// gone already.
pub open spec fn is_gone(revoked: Result<(), web::EngineError>) -> bool {
    match revoked {
        Ok(_) => true,
        Err(e) => e.kind is SessionNotFound,
    }
}

fn gone(revoked: &Result<(), web::EngineError>) -> (r: bool)
    ensures
        r == is_gone(*revoked),
{
    match revoked {
        Ok(_) => true,
        Err(e) => matches!(e.kind, web::ErrorKind::SessionNotFound),
    }
}

/// Answers after one own session was revoked. Without the session of the
/// request the user has to sign in again.
pub fn revoke_session(
    session: &web::UiSession,
    target: u128,
    is_current: bool,
    revoked: Result<(), web::EngineError>,
) -> (r: web::Outcome<()>)
    ensures
        !is_gone(revoked) ==> r.reply is ServerError && r.is_silent(),
        is_gone(revoked) ==> {
            &&& r.log() == seq![audit::self_revoke_event(*session, target, false)]
            &&& is_current ==> r.reply.signs_out("/ui/login"@)
            &&& !is_current ==> r.reply.redirects("/ui/account/sessions"@)
        },
{
    if !gone(&revoked) {
        return web::Outcome::silent(web::Reply::ServerError);
    }
    let event = audit::audit_self_session_revoke(session, target, false);
    let reply = if is_current {
        web::Reply::SignOut("/ui/login".to_owned())
    } else {
        web::Reply::redirect("/ui/account/sessions")
    };
    web::Outcome::logged(reply, event)
}

/// The sessions of a list that are neither the current one nor revoked.
pub open spec fn others(items: Seq<SessionInfo>, current: u128) -> Seq<u128>
    decreases items.len(),
{
    if items.len() == 0 {
        Seq::empty()
    } else {
        let before = others(items.drop_last(), current);
        if items.last().id == current || items.last().revoked {
            before
        } else {
            before.push(items.last().id)
        }
    }
}

/// Lists the sessions of a page that "revoke others" ends.
pub fn revoke_other_sessions_targets(session: &web::UiSession, items: &Vec<SessionInfo>) -> (r: Vec<
    u128,
>)
    ensures
        r@ == others(items@, session.session_id),
{
    let mut out: Vec<u128> = Vec::new();
    let mut i: usize = 0;
    proof {
        assert(items@.take(0) =~= Seq::<SessionInfo>::empty());
    }
    while i < items.len()
        invariant
            i <= items.len(),
            out@ == others(items@.take(i as int), session.session_id),
        decreases items.len() - i,
    {
        proof {
            assert(items@.take(i + 1).drop_last() =~= items@.take(i as int));
        }
        if !(items[i].id == session.session_id || items[i].revoked) {
            out.push(items[i].id);
        }
        i += 1;
    }
    proof {
        assert(items@.take(items@.len() as int) =~= items@);
    }
    out
}

/// "Revoke others" never ends the session of the request.
pub proof fn law_current_session_survives(items: Seq<SessionInfo>, current: u128)
    ensures
        !others(items, current).contains(current),
    decreases items.len(),
{
    if items.len() > 0 {
        law_current_session_survives(items.drop_last(), current);
        let r = others(items, current);
        if r.contains(current) {
            let k = choose|k: int| 0 <= k < r.len() && r[k] == current;
            let before = others(items.drop_last(), current);
            if k < before.len() {
                assert(before[k] == current);
            }
        }
    }
}

/// "Revoke others" ends every other session that is not revoked yet.
pub proof fn law_other_sessions_end(items: Seq<SessionInfo>, current: u128, i: int)
    requires
        0 <= i < items.len(),
        items[i].id != current,
        !items[i].revoked,
    ensures
        others(items, current).contains(items[i].id),
    decreases items.len(),
{
    let before = others(items.drop_last(), current);
    let r = others(items, current);
    if i < items.len() - 1 {
        law_other_sessions_end(items.drop_last(), current, i);
        let k = choose|k: int| 0 <= k < before.len() && before[k] == items[i].id;
        assert(r[k] == items[i].id);
    } else {
        assert(r[r.len() - 1] == items[i].id);
    }
}

/// Records one session that "revoke others" ended; nothing where that failed.
pub fn revoke_other_sessions_event(
    session: &web::UiSession,
    target: u128,
    revoked: Result<(), web::EngineError>,
) -> (r: Option<web::AuditEvent>)
    ensures
        is_gone(revoked) ==> r is Some && r->0@ == audit::self_revoke_event(*session, target, true),
        !is_gone(revoked) ==> r is None,
{
    if gone(&revoked) {
        Some(audit::audit_self_session_revoke(session, target, true))
    } else {
        None
    }
}

/// Answers "revoke others": refused without the CSRF token, failed where a page
/// of sessions could not be read, else back to the list.
pub fn revoke_other_sessions(csrf_ok: bool, all_read: bool) -> (r: web::Reply<()>)
    ensures
        !csrf_ok ==> r is Forbidden,
        csrf_ok && !all_read ==> r is ServerError,
        csrf_ok && all_read ==> r.redirects("/ui/account/sessions"@),
{
    if !csrf_ok {
        web::Reply::Forbidden
    } else if !all_read {
        web::Reply::ServerError
    } else {
        web::Reply::redirect("/ui/account/sessions")
    }
}

// ---------------------------------------------------------------------------
// The administrator's list
// ---------------------------------------------------------------------------

/// A session in the administrator's list.
pub struct SessionRow {
    /// The session.
    pub session: SessionInfo,
    /// The owner's email address, or "(unknown)".
    pub user_email: String,
    /// When the session began.
    pub created_at_display: String,
    /// When it ends.
    pub expires_at_display: String,
    /// The device, as far as it is known.
    pub device_label: String,
    /// The client's address, or a dash.
    pub ip_address: String,
    /// The realm in which the session lives.
    pub realm_name: String,
    /// The query by which the revoke form names that realm.
    pub realm_target_query: String,
}

/// A listed session without its representation.
#[verifier::ext_equal]
pub struct ListedSession {
    pub session: SessionInfo,
    pub user_email: Seq<char>,
    pub created_at_display: Seq<char>,
    pub expires_at_display: Seq<char>,
    pub device_label: Seq<char>,
    pub ip_address: Seq<char>,
    pub realm_name: Seq<char>,
    pub realm_target_query: Seq<char>,
}

impl View for SessionRow {
    type V = ListedSession;

    open spec fn view(&self) -> ListedSession {
        ListedSession {
            session: self.session,
            user_email: self.user_email@,
            created_at_display: self.created_at_display@,
            expires_at_display: self.expires_at_display@,
            device_label: self.device_label@,
            ip_address: self.ip_address@,
            realm_name: self.realm_name@,
            realm_target_query: self.realm_target_query@,
        }
    }
}

/// The email address under which a user is shown.
pub open spec fn shown_email(email: Option<String>) -> Seq<char> {
    text_or(email, "(unknown)"@)
}

/// The email address under which a user is shown: that of the user, where there
/// still is one.
pub fn resolve_user_email(email: &Option<String>) -> (r: String)
    ensures
        r@ == shown_email(*email),
{
    or_default(email, "(unknown)")
}

/// A session with the email address of its owner, where the owner is known.
pub struct OwnedSession {
    pub session: SessionInfo,
    pub email: Option<String>,
}

/// The row of a session.
pub open spec fn listed_session(
    s: OwnedSession,
    realm_name: Seq<char>,
    target_query: Seq<char>,
) -> ListedSession {
    ListedSession {
        session: s.session,
        user_email: shown_email(s.email),
        created_at_display: calendar::instant_text(s.session.created_at as int),
        expires_at_display: calendar::instant_text(s.session.expires_at as int),
        device_label: text_or(s.session.device_label, "Unknown device"@),
        ip_address: text_or(s.session.ip_address, "\u{2014}"@),
        realm_name,
        realm_target_query: target_query,
    }
}

/// Builds the row of a session.
pub fn build_session_row(realm_name: &str, target_query: &str, s: OwnedSession) -> (r: SessionRow)
    ensures
        r@ == listed_session(s, realm_name@, target_query@),
        r.session == s.session,
        r.created_at_display@ == calendar::instant_text(r.session.created_at as int),
        r.expires_at_display@ == calendar::instant_text(r.session.expires_at as int),
        s.email matches Some(email) ==> r.user_email@ == email@,
        s.email is None ==> r.user_email@ == "(unknown)"@,
        s.session.device_label matches Some(label) ==> r.device_label@ == label@,
        s.session.device_label is None ==> r.device_label@ == "Unknown device"@,
        s.session.ip_address matches Some(ip) ==> r.ip_address@ == ip@,
        s.session.ip_address is None ==> r.ip_address@ == "\u{2014}"@,
        r.realm_name@ == realm_name@,
        r.realm_target_query@ == target_query@,
{
    SessionRow {
        user_email: resolve_user_email(&s.email),
        created_at_display: calendar::format_ts(s.session.created_at),
        expires_at_display: calendar::format_ts(s.session.expires_at),
        device_label: or_default(&s.session.device_label, "Unknown device"),
        ip_address: or_default(&s.session.ip_address, "\u{2014}"),
        realm_name: realm_name.to_owned(),
        realm_target_query: target_query.to_owned(),
        session: s.session,
    }
}

/// The rows of the sessions of one realm.
pub open spec fn listed_sessions(
    items: Seq<OwnedSession>,
    realm_name: Seq<char>,
    target_query: Seq<char>,
) -> Seq<ListedSession> {
    Seq::new(items.len(), |i: int| listed_session(items[i], realm_name, target_query))
}

/// Adds the rows of the sessions of one realm.
fn push_rows(
    rows: &mut Vec<SessionRow>,
    items: Vec<OwnedSession>,
    realm_name: &str,
    target_query: &str,
)
    ensures
        text::views(final(rows)@) == text::views(old(rows)@) + listed_sessions(
            items@,
            realm_name@,
            target_query@,
        ),
{
    let ghost all = items@;
    let ghost start = rows@;
    let mut rest = items;
    let ghost mut n: int = 0;
    proof {
        assert(all.skip(0) =~= all);
        assert(text::views(rows@) =~= text::views(start) + listed_sessions(
            all.take(0),
            realm_name@,
            target_query@,
        ));
    }
    while rest.len() > 0
        invariant
            0 <= n <= all.len(),
            rest@ == all.skip(n),
            text::views(rows@) == text::views(start) + listed_sessions(
                all.take(n),
                realm_name@,
                target_query@,
            ),
        decreases rest.len(),
    {
        let ghost before = rows@;
        let s = rest.remove(0);
        let row = build_session_row(realm_name, target_query, s);
        proof {
            assert(rest@ =~= all.skip(n + 1));
            text::lemma_views_push(before, row);
        }
        rows.push(row);
        proof {
            assert(text::views(rows@) =~= text::views(start) + listed_sessions(
                all.take(n + 1),
                realm_name@,
                target_query@,
            ));
            n = n + 1;
        }
    }
    proof {
        assert(all.take(n) =~= all);
    }
}

/// Which sessions a request asks for.
pub enum SessionsScope {
    /// Those of every realm.
    Global,
    /// Those of the system realm.
    System,
    /// Those of the realm of that name.
    Named(String),
    /// The request names a target that is none of these.
    Unclear,
}

/// Which sessions a raw query asks for.
pub open spec fn asks_for(raw: Option<String>, scope: SessionsScope) -> bool {
    let pieces = query::params_of(text_or(raw, Seq::empty()));
    let target = query::value_after(pieces, "admin_target="@);
    let realm = query::value_after(pieces, "realm="@);
    match scope {
        SessionsScope::Global => target is None && realm is None,
        SessionsScope::System => target == Some("system"@),
        SessionsScope::Named(name) => target != Some("system"@) && realm == Some(name@),
        SessionsScope::Unclear => target is Some && target != Some("system"@) && realm is None,
    }
}

/// Reads which sessions a request asks for.
pub fn admin_sessions_list_scope(raw: &Option<String>) -> (r: SessionsScope)
    ensures
        asks_for(*raw, r),
{
    let q = or_default(raw, "");
    proof {
        reveal_strlit("");
        assert(""@ =~= Seq::<char>::empty());
    }
    let pieces = text::split(q.as_str(), text::Separator::Char('&'));
    let target = query::find_value(&pieces, "admin_target=");
    let realm = query::find_value(&pieces, "realm=");
    match target {
        Some(t) => if text::same(t.as_str(), "system") {
            SessionsScope::System
        } else {
            match realm {
                Some(name) => SessionsScope::Named(name),
                None => SessionsScope::Unclear,
            }
        },
        None => match realm {
            Some(name) => SessionsScope::Named(name),
            None => SessionsScope::Global,
        },
    }
}

/// A realm by its identifier and name.
pub struct RealmRef {
    pub id: u128,
    pub name: String,
}

/// Takes the realm that a request asks for from what was looked up. The system
/// realm has to exist; a named one may be missing; a request that names no realm
/// has none to show.
pub fn admin_sessions_list_realm(
    scope: &SessionsScope,
    found: Result<Option<RealmRef>, web::EngineError>,
) -> (r: Result<RealmRef, web::Reply<SessionListTemplate>>)
    ensures
        match (scope, found) {
            (SessionsScope::System, Ok(Some(realm))) => r == Ok::<
                RealmRef,
                web::Reply<SessionListTemplate>,
            >(realm),
            (SessionsScope::Named(_), Ok(Some(realm))) => r == Ok::<
                RealmRef,
                web::Reply<SessionListTemplate>,
            >(realm),
            (SessionsScope::Named(_), _) => r is Err && r->Err_0.not_found("Realm not found."@),
            _ => r is Err && r->Err_0 is ServerError,
        },
{
    match scope {
        SessionsScope::System => match found {
            Ok(Some(realm)) => Ok(realm),
            _ => Err(web::Reply::ServerError),
        },
        SessionsScope::Named(_) => match found {
            Ok(Some(realm)) => Ok(realm),
            _ => Err(web::Reply::missing("Realm not found.")),
        },
        _ => Err(web::Reply::ServerError),
    }
}

/// The list of sessions.
pub struct SessionListTemplate {
    pub sessions: Vec<SessionRow>,
    pub next_cursor: Option<String>,
    pub target_realm_name: Option<String>,
    pub target_realm_id_hex: Option<String>,
    /// Whether the list covers every realm.
    pub is_global: bool,
    pub active_tab: String,
    pub chrome: web::Chrome,
}

/// The query by which a realm is named.
pub open spec fn realm_query(is_system: bool, name: Seq<char>) -> Seq<char> {
    if is_system {
        "?admin_target=system"@
    } else {
        "?realm="@ + name
    }
}

/// Writes the query by which a realm is named.
pub fn realm_query_text(is_system: bool, name: &str) -> (r: String)
    ensures
        r@ == realm_query(is_system, name@),
{
    if is_system {
        "?admin_target=system".to_owned()
    } else {
        "?realm=".to_owned().concat(name)
    }
}

/// The name under which the rows of a realm stand.
pub open spec fn row_realm(is_system: bool, name: Seq<char>) -> Seq<char> {
    if is_system {
        "system"@
    } else {
        name
    }
}

fn row_realm_text(is_system: bool, name: &str) -> (r: String)
    ensures
        r@ == row_realm(is_system, name@),
{
    if is_system {
        "system".to_owned()
    } else {
        name.to_owned()
    }
}

/// Shows the sessions of one realm. `is_system` tells how the request named
/// the realm.
pub fn admin_sessions_list(
    site: &web::Site,
    session: &web::UiSession,
    is_system: bool,
    realm: &RealmRef,
    page: Result<Page<OwnedSession>, web::EngineError>,
) -> (r: web::Reply<SessionListTemplate>)
    ensures
        page is Err ==> r is ServerError,
        page matches Ok(list) ==> r is Page && {
            let p = r->Page_0;
            &&& text::views(p.sessions@) == listed_sessions(
                list.items@,
                row_realm(is_system, realm.name@),
                realm_query(is_system, realm.name@),
            )
            &&& p.next_cursor == list.next_cursor
            &&& text::opt_text(p.target_realm_name) == Some(realm.name@)
            &&& text::opt_text(p.target_realm_id_hex) == Some(codec::hyphenated(realm.id))
            &&& !p.is_global
            &&& p.active_tab@ == "sessions"@
            &&& p.chrome.is_admin_page(
                *site,
                *session,
                if realm.id != 0 {
                    "realm-workspace"@
                } else {
                    "admin-users"@
                },
            )
            &&& p.chrome.flash is None
        },
{
    match page {
        Err(_) => web::Reply::ServerError,
        Ok(list) => {
            let target_query = realm_query_text(is_system, realm.name.as_str());
            let mut rows: Vec<SessionRow> = Vec::new();
            let row_name = row_realm_text(is_system, realm.name.as_str());
            push_rows(&mut rows, list.items, row_name.as_str(), target_query.as_str());
            proof {
                assert(text::views(rows@) =~= listed_sessions(
                    list.items@,
                    row_realm(is_system, realm.name@),
                    realm_query(is_system, realm.name@),
                ));
            }
            let active = if realm.id != 0 {
                "realm-workspace"
            } else {
                "admin-users"
            };
            web::Reply::Page(
                SessionListTemplate {
                    sessions: rows,
                    next_cursor: list.next_cursor,
                    target_realm_name: Some(realm.name.clone()),
                    target_realm_id_hex: Some(codec::uuid_text(realm.id)),
                    is_global: false,
                    active_tab: "sessions".to_owned(),
                    chrome: web::Chrome::admin(site, session, active),
                },
            )
        },
    }
}

/// The most sessions that each realm adds to the list over every realm.
pub const PER_REALM_GLOBAL_LIMIT: usize = 50;

/// What the engine is asked for the list over every realm: the first sessions
/// of one realm, `limit` at most.
pub struct SessionsQuery {
    pub realm: RealmRef,
    pub is_system: bool,
    pub limit: usize,
}

/// Adds a page of a list to what was read before it; gives the cursor of the
/// next page. A page that could not be read adds nothing and ends the list.
pub fn gather_page<T>(page: Result<Page<T>, web::EngineError>, out: &mut Vec<T>) -> (next: Option<
    String,
>)
    ensures
        match page {
            Ok(p) => final(out)@ == old(out)@ + p.items@ && next == p.next_cursor,
            Err(_) => final(out)@ == old(out)@ && next is None,
        },
{
    match page {
        Ok(p) => {
            let mut items = p.items;
            out.append(&mut items);
            p.next_cursor
        },
        Err(_) => None,
    }
}

/// Whether a query is for a realm.
pub open spec fn asks_realm(queries: Seq<SessionsQuery>, id: u128) -> bool {
    exists|k: int| 0 <= k < queries.len() && (#[trigger] queries[k]).realm.id == id
}

/// The queries for realms that are not the system realm, each asked once.
pub open spec fn tenant_queries(realms: Seq<RealmRef>, system_id: u128) -> Seq<SessionsQuery>
    decreases realms.len(),
{
    if realms.len() == 0 {
        Seq::empty()
    } else {
        let before = tenant_queries(realms.drop_last(), system_id);
        let realm = realms.last();
        if realm.id == system_id || asks_realm(before, realm.id) {
            before
        } else {
            before.push(SessionsQuery { realm, is_system: false, limit: PER_REALM_GLOBAL_LIMIT })
        }
    }
}

/// The query for the system realm, where it was found.
pub open spec fn system_queries(system: Option<RealmRef>) -> Seq<SessionsQuery> {
    match system {
        Some(realm) => seq![
            SessionsQuery { realm, is_system: true, limit: PER_REALM_GLOBAL_LIMIT },
        ],
        None => Seq::empty(),
    }
}

/// The queries for the list over every realm: the system realm first.
pub open spec fn global_queries(
    system: Option<RealmRef>,
    system_id: u128,
    realms: Seq<RealmRef>,
) -> Seq<SessionsQuery> {
    system_queries(system) + tenant_queries(realms, system_id)
}

/// Tests whether a realm is asked among the queries from `from` on.
fn asked_from(queries: &Vec<SessionsQuery>, from: usize, id: u128) -> (r: bool)
    requires
        from <= queries.len(),
    ensures
        r == asks_realm(queries@.skip(from as int), id),
{
    let ghost rest = queries@.skip(from as int);
    let mut k: usize = from;
    while k < queries.len()
        invariant
            from <= k <= queries.len(),
            rest == queries@.skip(from as int),
            forall|l: int| 0 <= l < k - from ==> (#[trigger] rest[l]).realm.id != id,
        decreases queries.len() - k,
    {
        if queries[k].realm.id == id {
            proof {
                assert(rest[k - from].realm.id == id);
            }
            return true;
        }
        proof {
            assert(rest[k - from] == queries@[k as int]);
        }
        k += 1;
    }
    false
}

/// Decides what the list over every realm asks for: the system realm first,
/// where it was found, then every other realm, each once. `realms` is the whole
/// list of realms, which may hold the system realm.
pub fn admin_sessions_list_queries(
    system: Option<RealmRef>,
    system_id: u128,
    realms: Vec<RealmRef>,
) -> (r: Vec<SessionsQuery>)
    ensures
        r@ == global_queries(system, system_id, realms@),
{
    let ghost all = realms@;
    let mut queries: Vec<SessionsQuery> = Vec::new();
    if let Some(realm) = system {
        queries.push(SessionsQuery { realm, is_system: true, limit: PER_REALM_GLOBAL_LIMIT });
    }
    let first: usize = queries.len();
    let mut rest = realms;
    let ghost mut n: int = 0;
    proof {
        assert(queries@ =~= system_queries(system));
        assert(all.skip(0) =~= all);
        assert(queries@ =~= system_queries(system) + tenant_queries(all.take(0), system_id));
    }
    while rest.len() > 0
        invariant
            0 <= n <= all.len(),
            rest@ == all.skip(n),
            first == system_queries(system).len(),
            first <= queries.len(),
            queries@ == system_queries(system) + tenant_queries(all.take(n), system_id),
        decreases rest.len(),
    {
        let realm = rest.remove(0);
        let ghost before = tenant_queries(all.take(n), system_id);
        proof {
            assert(rest@ =~= all.skip(n + 1));
            assert(all.take(n + 1).drop_last() =~= all.take(n));
            assert(all.take(n + 1).last() == realm);
            assert(queries@.skip(first as int) =~= before);
        }
        if realm.id != system_id && !asked_from(&queries, first, realm.id) {
            queries.push(SessionsQuery { realm, is_system: false, limit: PER_REALM_GLOBAL_LIMIT });
        }
        proof {
            assert(queries@ =~= system_queries(system) + tenant_queries(
                all.take(n + 1),
                system_id,
            ));
            n = n + 1;
        }
    }
    proof {
        assert(all.take(n) =~= all);
    }
    queries
}

proof fn lemma_tenants(realms: Seq<RealmRef>, system_id: u128)
    ensures
        ({
            let queries = tenant_queries(realms, system_id);
            &&& forall|k: int|
                0 <= k < queries.len() ==> !(#[trigger] queries[k]).is_system
                    && queries[k].realm.id != system_id && queries[k].limit
                    == PER_REALM_GLOBAL_LIMIT && realms.contains(queries[k].realm)
            &&& forall|k: int, l: int|
                0 <= k < l < queries.len() ==> (#[trigger] queries[k]).realm.id != (
                #[trigger] queries[l]).realm.id
            &&& forall|i: int|
                0 <= i < realms.len() && (#[trigger] realms[i]).id != system_id ==> asks_realm(
                    queries,
                    realms[i].id,
                )
        }),
    decreases realms.len(),
{
    if realms.len() > 0 {
        let rest = realms.drop_last();
        let before = tenant_queries(rest, system_id);
        let queries = tenant_queries(realms, system_id);
        lemma_tenants(rest, system_id);
        assert forall|k: int| 0 <= k < queries.len() implies realms.contains(
            (#[trigger] queries[k]).realm,
        ) by {
            if k < before.len() {
                assert(queries[k] == before[k]);
                let i = choose|i: int| 0 <= i < rest.len() && rest[i] == before[k].realm;
                assert(realms[i] == queries[k].realm);
            } else {
                assert(realms[realms.len() - 1] == queries[k].realm);
            }
        }
        assert forall|i: int|
            0 <= i < realms.len() && (#[trigger] realms[i]).id != system_id implies asks_realm(
            queries,
            realms[i].id,
        ) by {
            if i < rest.len() {
                assert(rest[i] == realms[i]);
                let k = choose|k: int|
                    0 <= k < before.len() && (#[trigger] before[k]).realm.id == realms[i].id;
                assert(queries[k] == before[k]);
            } else if asks_realm(before, realms[i].id) {
                assert(queries == before);
            } else {
                assert(queries[before.len() as int].realm.id == realms[i].id);
            }
        }
    }
}

/// Every row of a realm's list tells of the session at its place: when that
/// began, when it ends, whose it is, and from which device and address it came.
pub proof fn law_realm_rows(
    items: Seq<OwnedSession>,
    realm_name: Seq<char>,
    target_query: Seq<char>,
    i: int,
)
    requires
        0 <= i < items.len(),
    ensures
        listed_sessions(items, realm_name, target_query).len() == items.len(),
        ({
            let row = listed_sessions(items, realm_name, target_query)[i];
            let s = items[i].session;
            &&& row.session == s
            &&& row.created_at_display == calendar::instant_text(s.created_at as int)
            &&& row.expires_at_display == calendar::instant_text(s.expires_at as int)
            &&& items[i].email matches Some(email) ==> row.user_email == email@
            &&& items[i].email is None ==> row.user_email == "(unknown)"@
            &&& s.device_label matches Some(label) ==> row.device_label == label@
            &&& s.device_label is None ==> row.device_label == "Unknown device"@
            &&& s.ip_address matches Some(ip) ==> row.ip_address == ip@
            &&& s.ip_address is None ==> row.ip_address == "\u{2014}"@
            &&& row.realm_name == realm_name
            &&& row.realm_target_query == target_query
        }),
{
}

/// Every row of the list over every realm shows when its own session began and
/// when it ends, and leads back to the realm in which the session lives.
pub proof fn law_global_row_times(groups: Seq<RealmSessions>, row: ListedSession)
    requires
        order::sorted(all_listed(groups), newest_first()).contains(row),
    ensures
        row.created_at_display == calendar::instant_text(row.session.created_at as int),
        row.expires_at_display == calendar::instant_text(row.session.expires_at as int),
        exists|k: int, i: int|
            0 <= k < groups.len() && 0 <= i < groups[k].items@.len() && row.session == (
            #[trigger] groups[k].items@[i]).session && (if groups[k].is_system {
                row.realm_name == "system"@ && row.realm_target_query == "?admin_target=system"@
            } else {
                row.realm_name == groups[k].realm_name@ && row.realm_target_query == "?realm"@
                    + "="@ + groups[k].realm_name@
            }),
{
    law_global_rows(groups, row);
    let (k, i) = choose|k: int, i: int| #[trigger] shows_session(row, groups, k, i);
    assert(shows_session(row, groups, k, i));
    assert(row.session == groups[k].items@[i].session);
    reveal_strlit("?realm=");
    reveal_strlit("?realm");
    reveal_strlit("=");
    assert("?realm="@ =~= "?realm"@ + "="@);
}

/// The list over every realm asks the system realm first and every listed realm
/// exactly once, for fifty sessions at most.
pub proof fn law_every_realm_is_asked(system: RealmRef, realms: Seq<RealmRef>)
    ensures
        ({
            let queries = global_queries(Some(system), system.id, realms);
            &&& queries[0].realm == system
            &&& forall|k: int|
                0 <= k < queries.len() ==> (#[trigger] queries[k]).is_system == (k == 0)
                    && queries[k].limit == 50 && (k == 0 || realms.contains(queries[k].realm))
            &&& forall|k: int, l: int|
                0 <= k < l < queries.len() ==> (#[trigger] queries[k]).realm.id != (
                #[trigger] queries[l]).realm.id
            &&& forall|i: int|
                0 <= i < realms.len() ==> asks_realm(queries, (#[trigger] realms[i]).id)
        }),
{
    let queries = global_queries(Some(system), system.id, realms);
    let tenants = tenant_queries(realms, system.id);
    lemma_tenants(realms, system.id);
    assert forall|k: int| 1 <= k < queries.len() implies #[trigger] queries[k] == tenants[k
        - 1] by {}
    assert forall|k: int, l: int| 0 <= k < l < queries.len() implies (
    #[trigger] queries[k]).realm.id != (#[trigger] queries[l]).realm.id by {
        assert(queries[l] == tenants[l - 1]);
        if k > 0 {
            assert(queries[k] == tenants[k - 1]);
        }
    }
    assert forall|i: int| 0 <= i < realms.len() implies asks_realm(
        queries,
        (#[trigger] realms[i]).id,
    ) by {
        if realms[i].id == system.id {
            assert(queries[0].realm.id == system.id);
        } else {
            let k = choose|k: int|
                0 <= k < tenants.len() && (#[trigger] tenants[k]).realm.id == realms[i].id;
            assert(queries[k + 1] == tenants[k]);
        }
    }
}

/// The sessions of one realm, for the list over every realm.
pub struct RealmSessions {
    pub realm_name: String,
    pub is_system: bool,
    pub items: Vec<OwnedSession>,
}

/// Takes the answer to a query; a realm that could not be read adds nothing.
pub fn realm_sessions(
    query: SessionsQuery,
    listed: Result<Vec<OwnedSession>, web::EngineError>,
) -> (r: RealmSessions)
    ensures
        r.realm_name == query.realm.name,
        r.is_system == query.is_system,
        match listed {
            Ok(items) => r.items == items,
            Err(_) => r.items@.len() == 0,
        },
{
    let items = match listed {
        Ok(items) => items,
        Err(_) => Vec::new(),
    };
    RealmSessions { realm_name: query.realm.name, is_system: query.is_system, items }
}

/// The rows of several realms, one realm after the other.
pub open spec fn all_listed(groups: Seq<RealmSessions>) -> Seq<ListedSession>
    decreases groups.len(),
{
    if groups.len() == 0 {
        Seq::empty()
    } else {
        let g = groups.last();
        all_listed(groups.drop_last()) + listed_sessions(
            g.items@,
            row_realm(g.is_system, g.realm_name@),
            realm_query(g.is_system, g.realm_name@),
        )
    }
}

/// Whether a row shows the session at place `i` of group `k`.
pub open spec fn shows_session(
    row: ListedSession,
    groups: Seq<RealmSessions>,
    k: int,
    i: int,
) -> bool {
    let g = groups[k];
    &&& 0 <= k < groups.len()
    &&& 0 <= i < g.items@.len()
    &&& row == listed_session(
        g.items@[i],
        row_realm(g.is_system, g.realm_name@),
        realm_query(g.is_system, g.realm_name@),
    )
}

proof fn lemma_all_listed(groups: Seq<RealmSessions>, row: ListedSession)
    ensures
        all_listed(groups).contains(row) <==> exists|k: int, i: int| #[trigger]
            shows_session(row, groups, k, i),
    decreases groups.len(),
{
    let all = all_listed(groups);
    if groups.len() > 0 {
        let rest = groups.drop_last();
        let before = all_listed(rest);
        let g = groups.last();
        let rows = listed_sessions(
            g.items@,
            row_realm(g.is_system, g.realm_name@),
            realm_query(g.is_system, g.realm_name@),
        );
        lemma_all_listed(rest, row);
        if all.contains(row) {
            let n = choose|n: int| 0 <= n < all.len() && all[n] == row;
            if n < before.len() {
                assert(before[n] == row);
                let (k, i) = choose|k: int, i: int| #[trigger] shows_session(row, rest, k, i);
                assert(shows_session(row, groups, k, i));
            } else {
                assert(rows[n - before.len()] == row);
                assert(shows_session(row, groups, groups.len() - 1, n - before.len()));
            }
        }
        if exists|k: int, i: int| #[trigger] shows_session(row, groups, k, i) {
            let (k, i) = choose|k: int, i: int| #[trigger] shows_session(row, groups, k, i);
            if k < rest.len() {
                assert(shows_session(row, rest, k, i));
                let n = choose|n: int| 0 <= n < before.len() && before[n] == row;
                assert(all[n] == row);
            } else {
                assert(all[before.len() + i] == row);
            }
        }
    }
}

/// The list over every realm shows exactly the sessions of the realms that
/// answered, each under its realm and with the query that names that realm.
pub proof fn law_global_rows(groups: Seq<RealmSessions>, row: ListedSession)
    ensures
        order::sorted(all_listed(groups), newest_first()).contains(row) <==> exists|
            k: int,
            i: int,
        | #[trigger] shows_session(row, groups, k, i),
{
    let all = all_listed(groups);
    let sorted = order::sorted(all, newest_first());
    lemma_all_listed(groups, row);
    order::law_sorted(all, newest_first());
    all.to_multiset_ensures();
    sorted.to_multiset_ensures();
    assert(sorted.contains(row) <==> sorted.to_multiset().count(row) > 0);
    assert(all.contains(row) <==> all.to_multiset().count(row) > 0);
}

/// Newer sessions first.
pub open spec fn newest_first() -> spec_fn(ListedSession, ListedSession) -> bool {
    |a: ListedSession, b: ListedSession| a.session.created_at >= b.session.created_at
}

/// Session rows, newer ones first.
pub struct ByAge;

impl order::Order<SessionRow> for ByAge {
    open spec fn may_precede(a: SessionRow, b: SessionRow) -> bool {
        newest_first()(a@, b@)
    }

    fn precedes(a: &SessionRow, b: &SessionRow) -> (r: bool) {
        a.session.created_at >= b.session.created_at
    }
}

/// The list over every realm never shows an older session above a newer one,
/// and shows every session that it was given.
pub proof fn law_newest_first(groups: Seq<RealmSessions>)
    ensures
        order::in_order(order::sorted(all_listed(groups), newest_first()), newest_first()),
        order::sorted(all_listed(groups), newest_first()).to_multiset() == all_listed(
            groups,
        ).to_multiset(),
{
    order::law_sorted(all_listed(groups), newest_first());
}

/// Shows the sessions of every realm, newer ones first.
pub fn admin_sessions_list_global(
    site: &web::Site,
    session: &web::UiSession,
    groups: Vec<RealmSessions>,
) -> (r: web::Reply<SessionListTemplate>)
    ensures
        r is Page && {
            let p = r->Page_0;
            &&& text::views(p.sessions@) == order::sorted(all_listed(groups@), newest_first())
            &&& p.next_cursor is None
            &&& p.target_realm_name is None
            &&& p.target_realm_id_hex is None
            &&& p.is_global
            &&& p.active_tab@ == ""@
            &&& p.chrome.is_admin_page(*site, *session, "sessions-global"@)
            &&& p.chrome.flash is None
        },
{
    let ghost all = groups@;
    let mut rest = groups;
    let mut rows: Vec<SessionRow> = Vec::new();
    let ghost mut n: int = 0;
    proof {
        assert(all.skip(0) =~= all);
        assert(text::views(rows@) =~= all_listed(all.take(0)));
    }
    while rest.len() > 0
        invariant
            0 <= n <= all.len(),
            rest@ == all.skip(n),
            text::views(rows@) == all_listed(all.take(n)),
        decreases rest.len(),
    {
        let g = rest.remove(0);
        proof {
            assert(rest@ =~= all.skip(n + 1));
            assert(all.take(n + 1).drop_last() =~= all.take(n));
            assert(all.take(n + 1).last() == g);
        }
        let target_query = realm_query_text(g.is_system, g.realm_name.as_str());
        let row_name = row_realm_text(g.is_system, g.realm_name.as_str());
        push_rows(&mut rows, g.items, row_name.as_str(), target_query.as_str());
        proof {
            n = n + 1;
        }
    }
    let ghost built = rows@;
    let sorted = order::sort::<SessionRow, ByAge>(rows);
    proof {
        assert(all.take(n) =~= all);
        let f = |r: SessionRow| r@;
        order::lemma_sorted_map(built, order::order_of::<SessionRow, ByAge>(), f, newest_first());
        assert(built.map_values(f) =~= text::views(built));
        assert(sorted@.map_values(f) =~= text::views(sorted@));
    }
    web::Reply::Page(
        SessionListTemplate {
            sessions: sorted,
            next_cursor: None,
            target_realm_name: None,
            target_realm_id_hex: None,
            is_global: true,
            active_tab: "".to_owned(),
            chrome: web::Chrome::admin(site, session, "sessions-global"),
        },
    )
}

/// Answers after an administrator revoked a session.
pub fn admin_session_revoke(
    session: &web::UiSession,
    target: &web::TargetRealm,
    session_id: u128,
    is_htmx: bool,
    revoked: Result<(), web::EngineError>,
) -> (r: web::Outcome<()>)
    ensures
        match revoked {
            Ok(_) => {
                &&& r.log() == seq![
                    web::ui_event(
                        *session,
                        target.id,
                        web::AuditAction::SessionRevoked,
                        "session"@,
                        codec::hyphenated(session_id),
                        web::via_ui(),
                    ),
                ]
                &&& is_htmx ==> r.reply.toasts("Session revoked."@, web::FlashKind::Success)
                &&& !is_htmx ==> r.reply.redirects("/ui/admin/sessions"@)
            },
            Err(e) => r.is_silent() && if e.kind is SessionNotFound {
                r.reply.not_found("Session not found"@)
            } else {
                r.reply is ServerError
            },
        },
{
    match revoked {
        Ok(_) => {
            let event = audit::audit_session_event(session, target.id, session_id, "revoke");
            let reply = if is_htmx {
                web::Reply::toast("Session revoked.", web::FlashKind::Success)
            } else {
                web::Reply::redirect("/ui/admin/sessions")
            };
            match event {
                Some(event) => web::Outcome::logged(reply, event),
                None => web::Outcome::silent(reply),
            }
        },
        Err(e) => match e.kind {
            web::ErrorKind::SessionNotFound => web::Outcome::silent(
                web::Reply::missing("Session not found"),
            ),
            _ => web::Outcome::silent(web::Reply::ServerError),
        },
    }
}

/// What is seen of a row is what it holds, each part under its own name.
pub proof fn law_rows_seen(a: AccountSessionRow, b: SessionRow)
    ensures
        a@.id == a.id@,
        a@.device_label == a.device_label@,
        a@.ip_address == a.ip_address@,
        a@.created_at == a.created_at@,
        a@.last_active == a.last_active@,
        a@.expires_at == a.expires_at@,
        a@.is_current == a.is_current,
        b@.session == b.session,
        b@.user_email == b.user_email@,
        b@.created_at_display == b.created_at_display@,
        b@.expires_at_display == b.expires_at_display@,
        b@.device_label == b.device_label@,
        b@.ip_address == b.ip_address@,
        b@.realm_name == b.realm_name@,
        b@.realm_target_query == b.realm_target_query@,
{
}

/// Part by part: the row of an own session.
pub proof fn law_own_session(s: SessionInfo, current: u128)
    ensures
        own_session(s, current).id == codec::hyphenated(s.id),
        own_session(s, current).device_label == text_or(s.device_label, "Unknown device"@),
        own_session(s, current).ip_address == text_or(s.ip_address, "—"@),
        own_session(s, current).created_at == calendar::instant_text(s.created_at as int),
        own_session(s, current).last_active == calendar::instant_text(s.last_refreshed_at as int),
        own_session(s, current).expires_at == calendar::instant_text(s.expires_at as int),
        own_session(s, current).is_current == (s.id == current),
{
}

/// One for each, in order: the rows of the sessions of one realm.
pub proof fn law_listed_sessions(
    items: Seq<OwnedSession>,
    realm_name: Seq<char>,
    target_query: Seq<char>,
    i: int,
)
    ensures
        listed_sessions(items, realm_name, target_query).len() == items.len(),
        0 <= i < items.len() ==> listed_sessions(items, realm_name, target_query)[i]
            == listed_session(items[i], realm_name, target_query),
{
}

/// The own sessions that are shown are those not revoked, in their order, each by
/// its own device, address and times.
pub proof fn law_own_sessions(items: Seq<SessionInfo>, current: u128)
    ensures
        own_sessions(items, current) == items.filter(
            |s: SessionInfo| !s.revoked,
        ).map_values(
            |s: SessionInfo| OwnSession {
                id: codec::hyphenated(s.id),
                device_label: match s.device_label {
                    Some(label) => label@,
                    None => "Unknown device"@,
                },
                ip_address: match s.ip_address {
                    Some(ip) => ip@,
                    None => "—"@,
                },
                created_at: calendar::instant_text(s.created_at as int),
                last_active: calendar::instant_text(s.last_refreshed_at as int),
                expires_at: calendar::instant_text(s.expires_at as int),
                is_current: s.id == current,
            },
        ),
    decreases items.len(),
{
    let keep = |s: SessionInfo| !s.revoked;
    let row = |s: SessionInfo| OwnSession {
                id: codec::hyphenated(s.id),
                device_label: match s.device_label {
                    Some(label) => label@,
                    None => "Unknown device"@,
                },
                ip_address: match s.ip_address {
                    Some(ip) => ip@,
                    None => "—"@,
                },
                created_at: calendar::instant_text(s.created_at as int),
                last_active: calendar::instant_text(s.last_refreshed_at as int),
                expires_at: calendar::instant_text(s.expires_at as int),
                is_current: s.id == current,
            };
    reveal(Seq::filter);
    if items.len() > 0 {
        law_own_sessions(items.drop_last(), current);
        let before = items.drop_last().filter(keep);
        if keep(items.last()) {
            assert(before.push(items.last()).map_values(row) =~= before.map_values(row).push(
                row(items.last()),
            ));
        }
    } else {
        assert(items.filter(keep).map_values(row) =~= Seq::<OwnSession>::empty());
    }
}

/// The sessions that end with the others are exactly those that are neither the
/// current one nor revoked, in their order.
pub proof fn law_others(items: Seq<SessionInfo>, current: u128)
    ensures
        others(items, current) == items.filter(
            |s: SessionInfo| s.id != current && !s.revoked,
        ).map_values(
            |s: SessionInfo| s.id,
        ),
    decreases items.len(),
{
    let keep = |s: SessionInfo| s.id != current && !s.revoked;
    let row = |s: SessionInfo| s.id;
    reveal(Seq::filter);
    if items.len() > 0 {
        law_others(items.drop_last(), current);
        let before = items.drop_last().filter(keep);
        if keep(items.last()) {
            assert(before.push(items.last()).map_values(row) =~= before.map_values(row).push(
                row(items.last()),
            ));
        }
    } else {
        assert(items.filter(keep).map_values(row) =~= Seq::<u128>::empty());
    }
}

/// A value that is missing is replaced, and no other.
pub proof fn law_text_or(o: Option<String>, default: Seq<char>)
    ensures
        o matches Some(s) ==> text_or(o, default) == s@,
        o is None ==> text_or(o, default) == default,
        shown_email(o) == text_or(o, "(unknown)"@),
{
}

/// A session is gone where it was ended, or where there was none.
pub proof fn law_is_gone(revoked: Result<(), web::EngineError>)
    ensures
        revoked is Ok ==> is_gone(revoked),
        revoked matches Err(e) ==> (is_gone(revoked) <==> e.kind is SessionNotFound),
{
}

/// The query that names a realm names it to the page that reads it: that of the
/// system as such, any other by its name.
pub proof fn law_realm_query(raw: String, name: String)
    requires
        name@.len() > 0,
        !name@.contains('&'),
    ensures
        realm_query(true, name@) == "?admin_target=system"@,
        realm_query(false, name@) == "?realm="@ + name@,
        raw@ == realm_query(true, name@).skip(1) ==> asks_for(Some(raw), SessionsScope::System),
        raw@ == realm_query(false, name@).skip(1) ==> asks_for(
            Some(raw),
            SessionsScope::Named(name),
        ),
        row_realm(true, name@) == "system"@,
        row_realm(false, name@) == name@,
{
    reveal_strlit("?admin_target=system");
    reveal_strlit("admin_target=");
    reveal_strlit("admin_target=system");
    reveal_strlit("system");
    reveal_strlit("?realm=");
    reveal_strlit("realm=");
    if raw@ == realm_query(true, name@).skip(1) {
        assert(raw@ =~= "admin_target="@ + "system"@);
        query::law_value_round_trip("admin_target="@, "system"@);
    }
    if raw@ == realm_query(false, name@).skip(1) {
        assert(raw@ =~= "realm="@ + name@);
        query::law_value_round_trip("realm="@, name@);
        let q = raw@;
        assert(!q.contains('&')) by {
            if q.contains('&') {
                let i = choose|i: int| 0 <= i < q.len() && q[i] == '&';
                assert(i >= 6);
                assert(name@[i - 6] == '&');
            }
        }
        text::lemma_first_piece(q, '&', Seq::empty());
        let pieces = query::params_of(q);
        assert(pieces.len() == 1 && pieces[0] == q);
        assert(!text::has_prefix(q, "admin_target="@)) by {
            if text::has_prefix(q, "admin_target="@) {
                assert(q.subrange(0, 13)[0] == 'a');
            }
        }
        reveal_with_fuel(query::value_after, 2);
    }
}

/// A request for sessions is read in one way only: the system before a name, and
/// everything where neither is named.
pub proof fn law_asks_for(raw: Option<String>, scope: SessionsScope)
    ensures
        ({
            let pieces = query::params_of(
                match raw {
                    Some(q) => q@,
                    None => Seq::empty(),
                },
            );
            let target = query::value_after(pieces, "admin_target="@);
            let realm = query::value_after(pieces, "realm="@);
            asks_for(raw, scope) ==> {
                &&& scope is Global <==> target is None && realm is None
                &&& scope is System <==> target == Some("system"@)
                &&& scope matches SessionsScope::Named(name) ==> realm == Some(name@)
                &&& scope is Unclear ==> target is Some && realm is None
            }
        }),
{
}

/// Without the system realm, every listed realm is asked exactly once, and none
/// of them as the system.
pub proof fn law_realms_without_system(system_id: u128, realms: Seq<RealmRef>)
    ensures
        ({
            let queries = global_queries(None, system_id, realms);
            &&& forall|k: int|
                0 <= k < queries.len() ==> !(#[trigger] queries[k]).is_system && queries[k].limit
                    == 50 && queries[k].realm.id != system_id && realms.contains(queries[k].realm)
            &&& forall|k: int, l: int|
                0 <= k < l < queries.len() ==> (#[trigger] queries[k]).realm.id != (
                #[trigger] queries[l]).realm.id
            &&& forall|i: int|
                0 <= i < realms.len() && (#[trigger] realms[i]).id != system_id ==> asks_realm(
                    queries,
                    realms[i].id,
                )
        }),
{
    lemma_tenants(realms, system_id);
    assert(global_queries(None, system_id, realms) =~= tenant_queries(realms, system_id));
}

/// What is read of sessions is limited.
pub proof fn law_session_limits()
    ensures
        OWN_SESSIONS_PAGE == 50,
        OTHER_SESSIONS_PAGE == 100,
        PER_REALM_GLOBAL_LIMIT == 50,
{
}

/// No session stands above one that began later.
pub proof fn law_sessions_by_age(groups: Seq<RealmSessions>, i: int, j: int)
    requires
        0 <= i < j < order::sorted(all_listed(groups), newest_first()).len(),
    ensures
        order::sorted(all_listed(groups), newest_first())[i].session.created_at >= order::sorted(
            all_listed(groups),
            newest_first(),
        )[j].session.created_at,
{
    law_newest_first(groups);
    let sorted = order::sorted(all_listed(groups), newest_first());
    assert(newest_first()(sorted[i], sorted[j]));
}

} // verus!
