//! The realm pages, and the console's endpoints that are about the whole
//! installation: switching realms, navigation, reload, test mail.

use crate::admins;
use crate::audit;
use crate::codec;
use crate::sessions;
use crate::text;
use crate::units;
use crate::users;
use crate::web;
use vstd::prelude::*;
use vstd::string::*;

verus! {

/// A realm as the engine knows it, with the settings that its page shows.
pub struct Realm {
    pub id: u128,
    pub name: String,
    /// Whether the realm is archived, so that it may be deleted.
    pub archived: bool,
    pub access_token_ttl_micros: Option<i64>,
    pub refresh_token_ttl_micros: Option<i64>,
    pub lockout_duration_micros: Option<i64>,
    pub session_ttl_micros: Option<i64>,
    /// Memory cost of password hashing, in KiB.
    pub password_memory_cost: Option<u32>,
}

// ---------------------------------------------------------------------------
// List
// ---------------------------------------------------------------------------

/// The list of realms.
pub struct RealmListTemplate {
    pub realms: Vec<Realm>,
    pub next_cursor: Option<String>,
    pub chrome: web::Chrome,
}

/// The number of realms on a page where all of them are read.
pub const REALMS_PAGE: usize = 100;

/// What the list asks the engine for: the cursor and how many realms.
pub fn admin_realms_list_query(params: users::PaginationParams) -> (r: (Option<String>, usize))
    ensures
        r == (params.cursor, users::PAGE_SIZE),
{
    (params.cursor, users::PAGE_SIZE)
}

/// Shows a page of realms.
pub fn admin_realms_list(
    site: &web::Site,
    session: &web::UiSession,
    page: Result<sessions::Page<Realm>, web::EngineError>,
) -> (r: web::Reply<RealmListTemplate>)
    ensures
        match page {
            Ok(list) => r is Page && {
                let p = r->Page_0;
                &&& p.realms == list.items
                &&& p.next_cursor == list.next_cursor
                &&& p.chrome.is_admin_page(*site, *session, "realms"@)
                &&& p.chrome.flash is None
            },
            Err(_) => r is ServerError,
        },
{
    match page {
        Ok(list) => web::Reply::Page(
            RealmListTemplate {
                realms: list.items,
                next_cursor: list.next_cursor,
                chrome: web::Chrome::admin(site, session, "realms"),
            },
        ),
        Err(_) => web::Reply::ServerError,
    }
}

// ---------------------------------------------------------------------------
// Detail
// ---------------------------------------------------------------------------

/// How a duration that may be unset is shown.
pub open spec fn shown_duration(micros: Option<i64>) -> Option<Seq<char>> {
    match micros {
        Some(m) => Some(units::duration_text(m as int)),
        None => None,
    }
}

fn show_duration(micros: Option<i64>) -> (r: Option<String>)
    ensures
        text::opt_text(r) == shown_duration(micros),
{
    match micros {
        Some(m) => Some(units::format_micros_human(m)),
        None => None,
    }
}

/// How a memory size that may be unset is shown.
pub open spec fn shown_size(kib: Option<u32>) -> Option<Seq<char>> {
    match kib {
        Some(k) => Some(units::size_text(k as nat)),
        None => None,
    }
}

fn show_size(kib: Option<u32>) -> (r: Option<String>)
    ensures
        text::opt_text(r) == shown_size(kib),
{
    match kib {
        Some(k) => Some(units::format_kib_human(k)),
        None => None,
    }
}

/// The page of a realm.
pub struct RealmDetailTemplate {
    pub realm: Realm,
    pub access_token_ttl_display: Option<String>,
    pub refresh_token_ttl_display: Option<String>,
    pub lockout_duration_display: Option<String>,
    pub session_ttl_display: Option<String>,
    pub password_memory_cost_display: Option<String>,
    pub admins: Vec<admins::RealmAdminView>,
    pub chrome: web::Chrome,
}

/// Reads which realm a page is about.
pub fn admin_realm_detail_request(tid: &str) -> (r: Result<u128, web::Reply<RealmDetailTemplate>>)
    ensures
        web::names_one(r, true, tid@, "Realm not found"@),
{
    web::require_one(true, tid, "Realm not found")
}

/// Shows a realm. The site is the one under the realm's own product name.
pub fn admin_realm_detail(
    site: &web::Site,
    session: &web::UiSession,
    found: Result<Option<Realm>, web::EngineError>,
    system_id: u128,
    own: &Vec<sessions::Page<admins::RoleMember>>,
    system: &Vec<sessions::Page<admins::RoleMember>>,
) -> (r: web::Reply<RealmDetailTemplate>)
    ensures
        match found {
            Err(_) => r is ServerError,
            Ok(None) => r.not_found("Realm not found"@),
            Ok(Some(realm)) => r is Page && {
                let p = r->Page_0;
                &&& p.realm == realm
                &&& text::opt_text(p.access_token_ttl_display) == shown_duration(
                    realm.access_token_ttl_micros,
                )
                &&& text::opt_text(p.refresh_token_ttl_display) == shown_duration(
                    realm.refresh_token_ttl_micros,
                )
                &&& text::opt_text(p.lockout_duration_display) == shown_duration(
                    realm.lockout_duration_micros,
                )
                &&& text::opt_text(p.session_ttl_display) == shown_duration(realm.session_ttl_micros)
                &&& text::opt_text(p.password_memory_cost_display) == shown_size(
                    realm.password_memory_cost,
                )
                &&& text::views(p.admins@) == admins::shown_admins(
                    admins::realm_admins(realm.id, system_id, own@, system@),
                )
                &&& p.chrome.is_admin_page(*site, *session, "realms"@)
                &&& p.chrome.flash is None
            },
        },
{
    match found {
        Err(_) => web::Reply::ServerError,
        Ok(None) => web::Reply::missing("Realm not found"),
        Ok(Some(realm)) => {
            let admins = admins::resolve_realm_admins(realm.id, system_id, own, system);
            web::Reply::Page(
                RealmDetailTemplate {
                    access_token_ttl_display: show_duration(realm.access_token_ttl_micros),
                    refresh_token_ttl_display: show_duration(realm.refresh_token_ttl_micros),
                    lockout_duration_display: show_duration(realm.lockout_duration_micros),
                    session_ttl_display: show_duration(realm.session_ttl_micros),
                    password_memory_cost_display: show_size(realm.password_memory_cost),
                    admins,
                    realm,
                    chrome: web::Chrome::admin(site, session, "realms"),
                },
            )
        },
    }
}

// ---------------------------------------------------------------------------
// Deletion
// ---------------------------------------------------------------------------

/// Reads which realm is to be deleted.
pub fn admin_realm_delete_request(csrf_ok: bool, tid: &str) -> (r: Result<u128, web::Reply<()>>)
    ensures
        web::names_one(r, csrf_ok, tid@, "Realm not found"@),
{
    web::require_one(csrf_ok, tid, "Realm not found")
}

/// Decides whether a realm may be deleted: only archived ones may.
pub fn admin_realm_delete_check(found: Result<Option<Realm>, web::EngineError>) -> (r: Result<
    (),
    web::Reply<()>,
>)
    ensures
        match found {
            Err(_) => r is Err && r->Err_0 is ServerError,
            Ok(None) => r is Err && r->Err_0.not_found("Realm not found"@),
            Ok(Some(realm)) => if realm.archived {
                r is Ok
            } else {
                r is Err && r->Err_0.bad_request(
                    "Only archived realms can be permanently deleted. Remove the realm from hearth.yaml and restart to archive it first."@,
                )
            },
        },
{
    match found {
        Err(_) => Err(web::Reply::ServerError),
        Ok(None) => Err(web::Reply::missing("Realm not found")),
        Ok(Some(realm)) => if realm.archived {
            Ok(())
        } else {
            Err(
                web::Reply::BadRequest(
                    "Only archived realms can be permanently deleted. Remove the realm from hearth.yaml and restart to archive it first.".to_owned(),
                ),
            )
        },
    }
}

/// Answers after the engine tried to delete the realm.
pub fn admin_realm_delete(
    session: &web::UiSession,
    realm_id: u128,
    deleted: Result<(), web::EngineError>,
) -> (r: web::Outcome<()>)
    ensures
        match deleted {
            Ok(_) => {
                &&& r.log() == seq![
                    web::ui_event(
                        *session,
                        realm_id,
                        web::AuditAction::RealmDeleted,
                        "realm"@,
                        codec::hyphenated(realm_id),
                        web::via_ui(),
                    ),
                ]
                &&& r.reply.redirects("/ui/admin/realms"@)
            },
            Err(e) => r.is_silent() && if e.kind is RealmNotFound {
                r.reply.not_found("Realm not found"@)
            } else {
                r.reply is ServerError
            },
        },
{
    match deleted {
        Ok(_) => {
            proof {
                reveal_strlit("create");
                reveal_strlit("update");
                reveal_strlit("delete");
                assert("delete"@[0] == 'd' && "create"@[0] == 'c' && "update"@[0] == 'u');
            }
            let event = audit::audit_realm_event(session, realm_id, "delete");
            web::Outcome::noted(web::Reply::redirect("/ui/admin/realms"), event)
        },
        Err(e) => match e.kind {
            web::ErrorKind::RealmNotFound => web::Outcome::silent(
                web::Reply::missing("Realm not found"),
            ),
            _ => web::Outcome::silent(web::Reply::ServerError),
        },
    }
}

// ---------------------------------------------------------------------------
// Switching realms
// ---------------------------------------------------------------------------

/// The form that makes another realm the one under administration.
pub struct SwitchRealmForm {
    pub realm: String,
    pub csrf: String,
    /// Where to go back to.
    pub return_to: Option<String>,
}

/// The reply to a switch.
pub enum SwitchReply {
    /// The request lacks the CSRF token.
    Forbidden,
    /// A plain text under the status "bad request".
    Refused(String),
    /// A redirect that sets a cookie.
    Switched { location: String, cookie: String },
}

/// Switches to another realm: the cookie names it, and the redirect goes to
/// where the form says, as far as that is a safe place, or to the realm's
/// users. The system realm and an unnamed one are refused.
pub fn admin_switch_realm(
    csrf_ok: bool,
    system_name: &str,
    form: &SwitchRealmForm,
    safe_return_to: Option<String>,
) -> (r: SwitchReply)
    ensures
        !csrf_ok ==> r is Forbidden,
        csrf_ok && (form.realm@ == system_name@ || form.realm@.len() == 0) ==> r is Refused
            && r->Refused_0@ == "invalid realm name"@,
        csrf_ok && form.realm@ != system_name@ && form.realm@.len() > 0 ==> r is Switched
            && r->location@ == (match safe_return_to {
            Some(path) => path@,
            None => "/ui/admin/users?realm="@ + form.realm@,
        }) && r->cookie@ == "hearth_ui_admin_target="@ + form.realm@
            + "; HttpOnly; Path=/ui; SameSite=Lax"@,
{
    if !csrf_ok {
        return SwitchReply::Forbidden;
    }
    if text::same(form.realm.as_str(), system_name) || form.realm.as_str().is_empty() {
        return SwitchReply::Refused("invalid realm name".to_owned());
    }
    let location = match safe_return_to {
        Some(path) => path,
        None => "/ui/admin/users?realm=".to_owned().concat(form.realm.as_str()),
    };
    let cookie = "hearth_ui_admin_target=".to_owned().concat(form.realm.as_str()).concat(
        "; HttpOnly; Path=/ui; SameSite=Lax",
    );
    SwitchReply::Switched { location, cookie }
}

// ---------------------------------------------------------------------------
// Navigation
// ---------------------------------------------------------------------------

/// A realm in the sidebar.
pub struct NavRealm {
    pub name: String,
    pub archived: bool,
}

impl View for NavRealm {
    type V = (Seq<char>, bool);

    open spec fn view(&self) -> (Seq<char>, bool) {
        (self.name@, self.archived)
    }
}

/// The realms of a list but the system realm.
pub open spec fn nav_items(realms: Seq<Realm>, system_id: u128) -> Seq<(Seq<char>, bool)>
    decreases realms.len(),
{
    if realms.len() == 0 {
        Seq::empty()
    } else {
        let before = nav_items(realms.drop_last(), system_id);
        if realms.last().id == system_id {
            before
        } else {
            before.push((realms.last().name@, realms.last().archived))
        }
    }
}

/// The realms on the pages of a list but the system realm.
pub open spec fn nav_realms(pages: Seq<sessions::Page<Realm>>, system_id: u128) -> Seq<
    (Seq<char>, bool),
>
    decreases pages.len(),
{
    if pages.len() == 0 {
        Seq::empty()
    } else {
        nav_realms(pages.drop_last(), system_id) + nav_items(pages.last().items@, system_id)
    }
}

fn collect_nav(realms: &Vec<Realm>, system_id: u128, out: &mut Vec<NavRealm>)
    ensures
        text::views(final(out)@) == text::views(old(out)@) + nav_items(realms@, system_id),
{
    let mut i: usize = 0;
    proof {
        assert(text::views(out@) =~= text::views(old(out)@) + nav_items(realms@.take(0), system_id));
    }
    while i < realms.len()
        invariant
            i <= realms.len(),
            text::views(out@) == text::views(old(out)@) + nav_items(
                realms@.take(i as int),
                system_id,
            ),
        decreases realms.len() - i,
    {
        let ghost before = out@;
        proof {
            assert(realms@.take(i + 1).drop_last() =~= realms@.take(i as int));
        }
        if realms[i].id != system_id {
            let item = NavRealm { name: realms[i].name.clone(), archived: realms[i].archived };
            proof {
                text::lemma_views_push(before, item);
            }
            out.push(item);
        }
        proof {
            assert(text::views(out@) =~= text::views(old(out)@) + nav_items(
                realms@.take(i + 1),
                system_id,
            ));
        }
        i += 1;
    }
    proof {
        assert(realms@.take(realms@.len() as int) =~= realms@);
    }
}

/// Lists the realms for the sidebar from the pages of the engine's list.
pub fn admin_api_nav_realms(
    system_id: u128,
    pages: Result<Vec<sessions::Page<Realm>>, web::EngineError>,
) -> (r: web::Reply<Vec<NavRealm>>)
    ensures
        match pages {
            Ok(list) => r is Page && text::views(r->Page_0@) == nav_realms(list@, system_id),
            Err(_) => r is ServerError,
        },
{
    let pages = match pages {
        Ok(list) => list,
        Err(_) => return web::Reply::ServerError,
    };
    let mut out: Vec<NavRealm> = Vec::new();
    let mut i: usize = 0;
    proof {
        assert(text::views(out@) =~= nav_realms(pages@.take(0), system_id));
    }
    while i < pages.len()
        invariant
            i <= pages.len(),
            text::views(out@) == nav_realms(pages@.take(i as int), system_id),
        decreases pages.len() - i,
    {
        collect_nav(&pages[i].items, system_id, &mut out);
        proof {
            assert(pages@.take(i + 1).drop_last() =~= pages@.take(i as int));
        }
        i += 1;
    }
    proof {
        assert(pages@.take(pages@.len() as int) =~= pages@);
    }
    web::Reply::Page(out)
}

// ---------------------------------------------------------------------------
// Reload and test mail
// ---------------------------------------------------------------------------

/// The answer to a request to reload the configuration.
pub struct ReloadReply {
    /// Whether the status is "service unavailable".
    pub unavailable: bool,
    pub status: String,
    pub message: String,
}

/// Answers a request to reload the configuration, which needs a file that it
/// was loaded from.
pub fn admin_api_config_reload(reloadable: bool) -> (r: ReloadReply)
    ensures
        r.unavailable == !reloadable,
        r.status@ == if reloadable {
            "ok"@
        } else {
            "error"@
        },
        r.message@ == if reloadable {
            "configuration reload triggered"@
        } else {
            "reload not available (no config file loaded)"@
        },
{
    if reloadable {
        ReloadReply {
            unavailable: false,
            status: "ok".to_owned(),
            message: "configuration reload triggered".to_owned(),
        }
    } else {
        ReloadReply {
            unavailable: true,
            status: "error".to_owned(),
            message: "reload not available (no config file loaded)".to_owned(),
        }
    }
}

/// The form that sends a test mail.
pub struct TestEmailForm {
    pub csrf: String,
    pub email: String,
}

/// Reads to whom the test mail goes.
pub fn admin_test_email_request(csrf_ok: bool, form: &TestEmailForm) -> (r: Result<
    String,
    web::Reply<()>,
>)
    ensures
        !csrf_ok ==> r is Err && r->Err_0 is Forbidden,
        csrf_ok ==> if text::trimmed(form.email@).len() == 0 {
            r is Err && r->Err_0.redirects("/ui/admin/settings?flash=test_email_empty"@)
        } else {
            r is Ok && r->Ok_0@ == text::trimmed(form.email@)
        },
{
    if !csrf_ok {
        return Err(web::Reply::Forbidden);
    }
    let email = text::trim(form.email.as_str());
    if email.as_str().is_empty() {
        return Err(web::Reply::redirect("/ui/admin/settings?flash=test_email_empty"));
    }
    Ok(email)
}

/// Answers after the test mail was to be sent, if there is a mail service. A
/// failure is told with its error.
pub fn admin_test_email(sent: Option<Result<(), web::EngineError>>) -> (r: web::Reply<()>)
    ensures
        match sent {
            Some(Ok(_)) => r.redirects("/ui/admin/settings?flash=test_email_sent"@),
            Some(Err(e)) => r.flashes(
                "/ui/admin/settings?flash=test_email_failed"@,
                e.text@,
                web::FlashKind::Error,
            ),
            None => r.redirects("/ui/admin/settings?flash=test_email_no_transport"@),
        },
{
    match sent {
        Some(Ok(_)) => web::Reply::redirect("/ui/admin/settings?flash=test_email_sent"),
        Some(Err(e)) => web::Reply::flash(
            "/ui/admin/settings?flash=test_email_failed",
            e.text.as_str(),
            web::FlashKind::Error,
        ),
        None => web::Reply::redirect("/ui/admin/settings?flash=test_email_no_transport"),
    }
}

/// The nav list never shows the system realm, and shows every other one.
pub proof fn law_nav_realms(realms: Seq<Realm>, system_id: u128, name: Seq<char>, archived: bool)
    ensures
        nav_items(realms, system_id).contains((name, archived)) <==> exists|i: int|
            0 <= i < realms.len() && (#[trigger] realms[i]).id != system_id && realms[i].name@ == name
                && realms[i].archived == archived,
    decreases realms.len(),
{
    let item = (name, archived);
    if realms.len() > 0 {
        let rest = realms.drop_last();
        let before = nav_items(rest, system_id);
        let all = nav_items(realms, system_id);
        law_nav_realms(rest, system_id, name, archived);
        if all.contains(item) {
            let k = choose|k: int| 0 <= k < all.len() && all[k] == item;
            if k < before.len() {
                assert(before[k] == item);
                let i = choose|i: int|
                    0 <= i < rest.len() && (#[trigger] rest[i]).id != system_id && rest[i].name@
                        == name && rest[i].archived == archived;
                assert(realms[i] == rest[i]);
            } else {
                assert(realms[realms.len() - 1] == realms.last());
            }
        }
        if exists|i: int|
            0 <= i < realms.len() && (#[trigger] realms[i]).id != system_id && realms[i].name@
                == name && realms[i].archived == archived {
            let i = choose|i: int|
                0 <= i < realms.len() && (#[trigger] realms[i]).id != system_id && realms[i].name@
                    == name && realms[i].archived == archived;
            if i < rest.len() {
                assert(rest[i] == realms[i]);
                let k = choose|k: int| 0 <= k < before.len() && before[k] == item;
                assert(all[k] == item);
            } else {
                assert(all[before.len() as int] == item);
            }
        }
    }
}

/// What is seen of a row is what it holds, each part under its own name.
pub proof fn law_rows_seen(a: NavRealm)
    ensures
        a@.0 == a.name@,
        a@.1 == a.archived,
{
}

/// The list of realms shows every realm but that of the system, in their order,
/// each with whether it is archived.
pub proof fn law_nav_items(realms: Seq<Realm>, system_id: u128)
    ensures
        nav_items(realms, system_id) == realms.filter(
            |r: Realm| r.id != system_id,
        ).map_values(
            |r: Realm| (r.name@, r.archived),
        ),
    decreases realms.len(),
{
    let keep = |r: Realm| r.id != system_id;
    let row = |r: Realm| (r.name@, r.archived);
    reveal(Seq::filter);
    if realms.len() > 0 {
        law_nav_items(realms.drop_last(), system_id);
        let before = realms.drop_last().filter(keep);
        if keep(realms.last()) {
            assert(before.push(realms.last()).map_values(row) =~= before.map_values(row).push(
                row(realms.last()),
            ));
        }
    } else {
        assert(realms.filter(keep).map_values(row) =~= Seq::<(Seq<char>, bool)>::empty());
    }
}

/// Every page of the realms is shown, one after the other.
pub proof fn law_nav_pages(pages: Seq<sessions::Page<Realm>>, system_id: u128)
    ensures
        nav_realms(pages, system_id) == pages.map_values(
            |p: sessions::Page<Realm>| nav_items(p.items@, system_id),
        ).flatten(),
    decreases pages.len(),
{
    let f = |p: sessions::Page<Realm>| nav_items(p.items@, system_id);
    let all = pages.map_values(f);
    all.lemma_flatten_and_flatten_alt_are_equivalent();
    if pages.len() > 0 {
        law_nav_pages(pages.drop_last(), system_id);
        assert(all.drop_last() =~= pages.drop_last().map_values(f));
        all.drop_last().lemma_flatten_and_flatten_alt_are_equivalent();
    } else {
        assert(all =~= Seq::<Seq<(Seq<char>, bool)>>::empty());
    }
}

/// What is configured is shown, and what is not is left out.
pub proof fn law_shown_settings(micros: Option<i64>, kib: Option<u32>)
    ensures
        micros matches Some(m) ==> shown_duration(micros) == Some(units::duration_text(m as int)),
        micros is None ==> shown_duration(micros) is None,
        kib matches Some(k) ==> shown_size(kib) == Some(units::size_text(k as nat)),
        kib is None ==> shown_size(kib) is None,
        REALMS_PAGE == 100,
{
}

} // verus!
