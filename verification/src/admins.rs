//! Realm administrators: who they are, and how the role is granted and
//! revoked.

use crate::codec;
use crate::members;
use crate::order;
use crate::sessions;
use crate::text;
use crate::users;
use crate::web;
use vstd::prelude::*;
use vstd::string::*;

verus! {

// ---------------------------------------------------------------------------
// Who administers a realm
// ---------------------------------------------------------------------------

/// A realm administrator on the realm page.
pub struct RealmAdminView {
    /// User UUID.
    pub user_id: String,
    /// The user's name, or email address where there is none.
    pub display_name: String,
    /// The user's email address.
    pub email: String,
    /// Whether the user administers every realm.
    pub is_system_admin: bool,
}

/// An administrator without its representation.
#[verifier::ext_equal]
pub struct AdminLine {
    pub user_id: Seq<char>,
    pub display_name: Seq<char>,
    pub email: Seq<char>,
    pub is_system_admin: bool,
}

impl View for RealmAdminView {
    type V = AdminLine;

    open spec fn view(&self) -> AdminLine {
        AdminLine {
            user_id: self.user_id@,
            display_name: self.display_name@,
            email: self.email@,
            is_system_admin: self.is_system_admin,
        }
    }
}

/// Who holds a role, with what the engine knows of a user.
pub enum RoleMember {
    User { id: u128, person: Option<members::Person> },
    Group,
}

/// The administrators among the holders of a role: users who are known.
pub open spec fn admin_lines(items: Seq<RoleMember>, is_system_admin: bool) -> Seq<AdminLine>
    decreases items.len(),
{
    if items.len() == 0 {
        Seq::empty()
    } else {
        let before = admin_lines(items.drop_last(), is_system_admin);
        match items.last() {
            RoleMember::User { id, person: Some(p) } => before.push(
                AdminLine {
                    user_id: codec::hyphenated(id),
                    display_name: members::name_or_email(p),
                    email: p.email@,
                    is_system_admin,
                },
            ),
            _ => before,
        }
    }
}

/// The administrators among the holders on the pages of a list.
pub open spec fn admins_on(pages: Seq<sessions::Page<RoleMember>>, is_system_admin: bool) -> Seq<
    AdminLine,
>
    decreases pages.len(),
{
    if pages.len() == 0 {
        Seq::empty()
    } else {
        admins_on(pages.drop_last(), is_system_admin) + admin_lines(
            pages.last().items@,
            is_system_admin,
        )
    }
}

/// Adds the administrators on the pages of the holders of the administrator
/// role. Groups, and users who are not known any more, are passed over.
pub fn collect_role_members(
    pages: &Vec<sessions::Page<RoleMember>>,
    is_system_admin: bool,
    out: &mut Vec<RealmAdminView>,
)
    ensures
        text::views(final(out)@) == text::views(old(out)@) + admins_on(pages@, is_system_admin),
{
    let mut i: usize = 0;
    proof {
        assert(text::views(out@) =~= text::views(old(out)@) + admins_on(
            pages@.take(0),
            is_system_admin,
        ));
    }
    while i < pages.len()
        invariant
            i <= pages.len(),
            text::views(out@) == text::views(old(out)@) + admins_on(
                pages@.take(i as int),
                is_system_admin,
            ),
        decreases pages.len() - i,
    {
        collect_page(&pages[i].items, is_system_admin, out);
        proof {
            assert(pages@.take(i + 1).drop_last() =~= pages@.take(i as int));
            assert(text::views(out@) =~= text::views(old(out)@) + admins_on(
                pages@.take(i + 1),
                is_system_admin,
            ));
        }
        i += 1;
    }
    proof {
        assert(pages@.take(pages@.len() as int) =~= pages@);
    }
}

fn collect_page(items: &Vec<RoleMember>, is_system_admin: bool, out: &mut Vec<RealmAdminView>)
    ensures
        text::views(final(out)@) == text::views(old(out)@) + admin_lines(items@, is_system_admin),
{
    let mut i: usize = 0;
    proof {
        assert(text::views(out@) =~= text::views(old(out)@) + admin_lines(
            items@.take(0),
            is_system_admin,
        ));
    }
    while i < items.len()
        invariant
            i <= items.len(),
            text::views(out@) == text::views(old(out)@) + admin_lines(
                items@.take(i as int),
                is_system_admin,
            ),
        decreases items.len() - i,
    {
        let ghost before = out@;
        proof {
            assert(items@.take(i + 1).drop_last() =~= items@.take(i as int));
        }
        if let RoleMember::User { id, person: Some(p) } = &items[i] {
            let row = RealmAdminView {
                user_id: codec::uuid_text(*id),
                display_name: members::person_name(p),
                email: p.email.clone(),
                is_system_admin,
            };
            proof {
                text::lemma_views_push(before, row);
            }
            out.push(row);
        }
        proof {
            assert(text::views(out@) =~= text::views(old(out)@) + admin_lines(
                items@.take(i + 1),
                is_system_admin,
            ));
        }
        i += 1;
    }
    proof {
        assert(items@.take(items@.len() as int) =~= items@);
    }
}

/// By email address; of the same address, those of the realm first.
pub open spec fn email_order() -> spec_fn(AdminLine, AdminLine) -> bool {
    |a: AdminLine, b: AdminLine|
        if a.email != b.email {
            text::text_le(a.email, b.email)
        } else {
            !a.is_system_admin || b.is_system_admin
        }
}

/// By name.
pub open spec fn name_order() -> spec_fn(AdminLine, AdminLine) -> bool {
    |a: AdminLine, b: AdminLine| text::text_le(a.display_name, b.display_name)
}

/// The first of each run of the same email address.
pub open spec fn first_of_runs(s: Seq<AdminLine>) -> Seq<AdminLine>
    decreases s.len(),
{
    if s.len() <= 1 {
        s
    } else {
        let before = first_of_runs(s.drop_last());
        if s.last().email == s[s.len() - 2].email {
            before
        } else {
            before.push(s.last())
        }
    }
}

/// The administrators to show: each email address once, by name. A user who
/// administers the realm and the system is shown as one of the realm.
pub open spec fn shown_admins(collected: Seq<AdminLine>) -> Seq<AdminLine> {
    order::sorted(first_of_runs(order::sorted(collected, email_order())), name_order())
}

/// Administrators by email address; those of the realm first.
pub struct ByEmail;

impl order::Order<RealmAdminView> for ByEmail {
    open spec fn may_precede(a: RealmAdminView, b: RealmAdminView) -> bool {
        email_order()(a@, b@)
    }

    fn precedes(a: &RealmAdminView, b: &RealmAdminView) -> (r: bool) {
        if a.email != b.email {
            text::le(a.email.as_str(), b.email.as_str())
        } else {
            !a.is_system_admin || b.is_system_admin
        }
    }
}

/// Administrators by name.
pub struct ByName;

impl order::Order<RealmAdminView> for ByName {
    open spec fn may_precede(a: RealmAdminView, b: RealmAdminView) -> bool {
        name_order()(a@, b@)
    }

    fn precedes(a: &RealmAdminView, b: &RealmAdminView) -> (r: bool) {
        text::le(a.display_name.as_str(), b.display_name.as_str())
    }
}

fn keep_first_of_runs(v: Vec<RealmAdminView>) -> (r: Vec<RealmAdminView>)
    ensures
        text::views(r@) == first_of_runs(text::views(v@)),
{
    broadcast use text::lemma_views_push;

    let ghost all = v@;
    let ghost lines = text::views(v@);
    let mut rest = v;
    let mut r: Vec<RealmAdminView> = Vec::new();
    let ghost mut n: int = 0;
    proof {
        assert(all.skip(0) =~= all);
        assert(text::views(r@) =~= first_of_runs(lines.take(0)));
    }
    while rest.len() > 0
        invariant
            0 <= n <= all.len(),
            lines == text::views(all),
            rest@ == all.skip(n),
            text::views(r@) == first_of_runs(lines.take(n)),
            n > 0 ==> r.len() > 0 && r@[r.len() - 1]@.email == lines[n - 1].email,
            n == 0 ==> r.len() == 0,
        decreases rest.len(),
    {
        let a = rest.remove(0);
        let k: usize = r.len();
        let repeats = k > 0 && a.email == r[k - 1].email;
        proof {
            assert(rest@ =~= all.skip(n + 1));
            assert(lines.take(n + 1).drop_last() =~= lines.take(n));
            assert(lines.take(n + 1).last() == a@);
            if n == 0 {
                assert(lines.take(1) =~= lines.take(0).push(a@));
            } else {
                assert(lines.take(n + 1)[n - 1] == lines[n - 1]);
            }
            n = n + 1;
        }
        if !repeats {
            r.push(a);
        }
    }
    proof {
        assert(lines.take(n) =~= lines);
    }
    r
}

/// Who administers a realm: the holders of the role in it, and those in the
/// system realm, unless the realm is that one.
pub open spec fn realm_admins(
    realm_id: u128,
    system_id: u128,
    own: Seq<sessions::Page<RoleMember>>,
    system: Seq<sessions::Page<RoleMember>>,
) -> Seq<AdminLine> {
    admins_on(own, false) + if realm_id != system_id {
        admins_on(system, true)
    } else {
        Seq::empty()
    }
}

/// Lists the administrators of a realm.
pub fn resolve_realm_admins(
    realm_id: u128,
    system_id: u128,
    own: &Vec<sessions::Page<RoleMember>>,
    system: &Vec<sessions::Page<RoleMember>>,
) -> (r: Vec<RealmAdminView>)
    ensures
        text::views(r@) == shown_admins(realm_admins(realm_id, system_id, own@, system@)),
{
    let mut collected: Vec<RealmAdminView> = Vec::new();
    proof {
        assert(text::views(collected@) =~= Seq::empty());
    }
    collect_role_members(own, false, &mut collected);
    if realm_id != system_id {
        collect_role_members(system, true, &mut collected);
    }
    proof {
        assert(text::views(collected@) =~= realm_admins(realm_id, system_id, own@, system@));
    }
    let ghost given = collected@;
    let ghost f = |a: RealmAdminView| a@;
    let by_email = order::sort::<RealmAdminView, ByEmail>(collected);
    proof {
        order::lemma_sorted_map(
            given,
            order::order_of::<RealmAdminView, ByEmail>(),
            f,
            email_order(),
        );
        assert(given.map_values(f) =~= text::views(given));
        assert(by_email@.map_values(f) =~= text::views(by_email@));
    }
    let once = keep_first_of_runs(by_email);
    let ghost kept = once@;
    let r = order::sort::<RealmAdminView, ByName>(once);
    proof {
        order::lemma_sorted_map(
            kept,
            order::order_of::<RealmAdminView, ByName>(),
            f,
            name_order(),
        );
        assert(kept.map_values(f) =~= text::views(kept));
        assert(r@.map_values(f) =~= text::views(r@));
    }
    r
}

proof fn lemma_email_order()
    ensures
        order::is_ranking(email_order()),
{
    let le = email_order();
    assert forall|a: AdminLine, b: AdminLine| #[trigger] le(a, b) || le(b, a) by {
        text::lemma_text_le_total(a.email, b.email);
    }
    assert forall|a: AdminLine, b: AdminLine, c: AdminLine| #[trigger]
        le(a, b) && #[trigger] le(b, c) implies le(a, c) by {
        if a.email != b.email && b.email != c.email {
            text::lemma_text_le_transitive(a.email, b.email, c.email);
            if a.email == c.email {
                text::lemma_text_le_antisymmetric(a.email, b.email);
            }
        }
    }
}

proof fn lemma_name_order()
    ensures
        order::is_ranking(name_order()),
{
    let le = name_order();
    assert forall|a: AdminLine, b: AdminLine| #[trigger] le(a, b) || le(b, a) by {
        text::lemma_text_le_total(a.display_name, b.display_name);
    }
    assert forall|a: AdminLine, b: AdminLine, c: AdminLine| #[trigger]
        le(a, b) && #[trigger] le(b, c) implies le(a, c) by {
        text::lemma_text_le_transitive(a.display_name, b.display_name, c.display_name);
    }
}

proof fn lemma_ordered_prefix(s: Seq<AdminLine>)
    requires
        s.len() > 0,
        order::in_order(s, email_order()),
    ensures
        order::in_order(s.drop_last(), email_order()),
{
    let t = s.drop_last();
    let le = email_order();
    assert forall|i: int, j: int| 0 <= i < j < t.len() implies le(#[trigger] t[i], #[trigger] t[j]) by {
        assert(le(s[i], s[j]));
    }
}

/// What is kept was there.
proof fn lemma_runs_kept(s: Seq<AdminLine>)
    ensures
        forall|a: AdminLine| #[trigger] first_of_runs(s).contains(a) ==> s.contains(a),
    decreases s.len(),
{
    if s.len() > 1 {
        let t = s.drop_last();
        lemma_runs_kept(t);
        assert forall|a: AdminLine| #[trigger] first_of_runs(s).contains(a) implies s.contains(a) by {
            let i = choose|i: int| 0 <= i < first_of_runs(s).len() && first_of_runs(s)[i] == a;
            if i < first_of_runs(t).len() {
                assert(first_of_runs(t)[i] == a);
                assert(first_of_runs(t).contains(a));
                let k = choose|k: int| 0 <= k < t.len() && t[k] == a;
                assert(s[k] == a);
            } else {
                assert(s[s.len() - 1] == a);
            }
        }
    }
}

/// Every entry has one that is kept, of the same email address and before it in
/// the order.
proof fn lemma_runs_complete(s: Seq<AdminLine>, k: int) -> (i: int)
    requires
        order::in_order(s, email_order()),
        0 <= k < s.len(),
    ensures
        0 <= i < first_of_runs(s).len(),
        first_of_runs(s)[i].email == s[k].email,
        !first_of_runs(s)[i].is_system_admin || s[k].is_system_admin,
    decreases s.len(),
{
    if s.len() == 1 {
        0
    } else {
        let t = s.drop_last();
        lemma_ordered_prefix(s);
        if k < t.len() {
            let i = lemma_runs_complete(t, k);
            assert(first_of_runs(s)[i] == first_of_runs(t)[i]);
            i
        } else if s.last().email == s[s.len() - 2].email {
            let le = email_order();
            assert(le(s[s.len() - 2], s[s.len() - 1]));
            lemma_runs_complete(t, s.len() - 2)
        } else {
            assert(first_of_runs(s)[first_of_runs(t).len() as int] == s[k]);
            first_of_runs(t).len() as int
        }
    }
}

/// No email address is kept twice.
proof fn lemma_runs_once(s: Seq<AdminLine>, i: int, j: int)
    requires
        order::in_order(s, email_order()),
        0 <= i < j < first_of_runs(s).len(),
    ensures
        first_of_runs(s)[i].email != first_of_runs(s)[j].email,
    decreases s.len(),
{
    if s.len() > 1 {
        let t = s.drop_last();
        let r = first_of_runs(s);
        let before = first_of_runs(t);
        lemma_ordered_prefix(s);
        if j < before.len() {
            lemma_runs_once(t, i, j);
            assert(r[i] == before[i] && r[j] == before[j]);
        } else {
            let x = s.last();
            let p = s[s.len() - 2];
            assert(r == before.push(x));
            assert(r[i] == before[i]);
            lemma_runs_kept(t);
            assert(before.contains(before[i]));
            let k = choose|k: int| 0 <= k < t.len() && t[k] == before[i];
            assert(s[k] == before[i]);
            if s[k].email == x.email && k < s.len() - 2 {
                let le = email_order();
                assert(le(s[k], s[s.len() - 2]));
                assert(le(s[s.len() - 2], s[s.len() - 1]));
                text::lemma_text_le_antisymmetric(p.email, x.email);
            }
        }
    }
}

proof fn lemma_same_values<T>(a: Seq<T>, b: Seq<T>)
    requires
        a.to_multiset() == b.to_multiset(),
    ensures
        forall|x: T| a.contains(x) <==> b.contains(x),
{
    broadcast use vstd::seq_lib::group_to_multiset_ensures;

    assert forall|x: T| a.contains(x) <==> b.contains(x) by {
        assert(a.contains(x) <==> a.to_multiset().count(x) > 0);
        assert(b.contains(x) <==> b.to_multiset().count(x) > 0);
    }
}

/// The administrators are shown by name.
pub proof fn law_admins_by_name(collected: Seq<AdminLine>)
    ensures
        order::in_order(shown_admins(collected), name_order()),
{
    lemma_name_order();
    order::law_sorted(first_of_runs(order::sorted(collected, email_order())), name_order());
}

/// Everybody who was collected is shown, and shown as one of the realm where
/// collected as such; nobody else is shown.
pub proof fn law_admins_complete(collected: Seq<AdminLine>, a: AdminLine)
    ensures
        shown_admins(collected).contains(a) ==> collected.contains(a),
        collected.contains(a) ==> exists|b: AdminLine| #[trigger]
            shown_admins(collected).contains(b) && b.email == a.email && (!b.is_system_admin
                || a.is_system_admin),
{
    lemma_email_order();
    lemma_name_order();
    let t = order::sorted(collected, email_order());
    let u = first_of_runs(t);
    order::law_sorted(collected, email_order());
    order::law_sorted(u, name_order());
    lemma_same_values(t, collected);
    lemma_same_values(shown_admins(collected), u);
    lemma_runs_kept(t);
    if collected.contains(a) {
        assert(t.contains(a));
        let k = choose|k: int| 0 <= k < t.len() && t[k] == a;
        let i = lemma_runs_complete(t, k);
        assert(u.contains(u[i]));
        assert(shown_admins(collected).contains(u[i]));
    }
}

/// No email address is shown twice.
pub proof fn law_admins_once(collected: Seq<AdminLine>, i: int, j: int)
    requires
        0 <= i < j < shown_admins(collected).len(),
    ensures
        shown_admins(collected)[i].email != shown_admins(collected)[j].email,
{
    lemma_email_order();
    lemma_name_order();
    let t = order::sorted(collected, email_order());
    let u = first_of_runs(t);
    let v = shown_admins(collected);
    order::law_sorted(collected, email_order());
    order::law_sorted(u, name_order());
    lemma_same_values(v, u);
    let a = v[i];
    let b = v[j];
    if a.email == b.email {
        assert(v.contains(a) && v.contains(b));
        assert(u.contains(a) && u.contains(b));
        let k = choose|k: int| 0 <= k < u.len() && u[k] == a;
        let m = choose|m: int| 0 <= m < u.len() && u[m] == b;
        if k < m {
            lemma_runs_once(t, k, m);
        } else if m < k {
            lemma_runs_once(t, m, k);
        }
        assert(a == b);
        assert forall|x: int, y: int|
            0 <= x < u.len() && 0 <= y < u.len() && x != y implies u[x] != u[y] by {
            if x < y {
                lemma_runs_once(t, x, y);
            } else {
                lemma_runs_once(t, y, x);
            }
        }
        assert(u.no_duplicates());
        u.lemma_multiset_has_no_duplicates();
        lemma_counted_twice(v, i, j);
        assert(u.to_multiset().contains(a));
    }
}

proof fn lemma_counted_twice<T>(s: Seq<T>, i: int, j: int)
    requires
        0 <= i < j < s.len(),
        s[i] == s[j],
    ensures
        s.to_multiset().count(s[i]) >= 2,
    decreases s.len(),
{
    broadcast use vstd::seq_lib::group_to_multiset_ensures;

    let t = s.drop_last();
    assert(s =~= t.push(s.last()));
    assert(s.to_multiset() =~= t.to_multiset().insert(s.last()));
    if j < s.len() - 1 {
        lemma_counted_twice(t, i, j);
    } else {
        assert(t.contains(t[i]));
        assert(t.to_multiset().count(t[i]) > 0);
    }
}

// ---------------------------------------------------------------------------
// Granting and revoking
// ---------------------------------------------------------------------------

/// The address of a realm's page.
pub open spec fn realm_address(realm_id: u128) -> Seq<char> {
    "/ui/admin/realms/"@ + codec::hyphenated(realm_id)
}

fn realm_url(realm_id: u128) -> (r: String)
    ensures
        r@ == realm_address(realm_id),
{
    "/ui/admin/realms/".to_owned().concat(codec::uuid_text(realm_id).as_str())
}

/// The form that makes a user a realm administrator.
pub struct RealmAdminGrantForm {
    pub csrf: String,
    pub user_id: String,
}

/// Reads which user is to administer which realm.
pub fn admin_realm_admin_grant_request(csrf_ok: bool, rid: &str, form: &RealmAdminGrantForm) -> (r:
    Result<(u128, u128), web::Reply<()>>)
    ensures
        !csrf_ok ==> r is Err && r->Err_0 is Forbidden,
        csrf_ok ==> match (codec::uuid_of(rid@), codec::uuid_of(text::trimmed(form.user_id@))) {
            (None, _) => r is Err && r->Err_0.not_found("Realm not found"@),
            (Some(_), None) => r is Err && r->Err_0.bad_request("Invalid user ID"@),
            (Some(realm_id), Some(user_id)) => r is Ok && r->Ok_0 == (realm_id, user_id),
        },
{
    let realm_id: u128 = match web::require_one(csrf_ok, rid, "Realm not found") {
        Ok(id) => id,
        Err(reply) => return Err(reply),
    };
    match codec::parse_uuid(text::trim(form.user_id.as_str()).as_str()) {
        Some(user_id) => Ok((realm_id, user_id)),
        None => Err(web::Reply::BadRequest("Invalid user ID".to_owned())),
    }
}

/// Decides whether the role has to be granted: the user has to exist in the
/// realm; one who has the role already is left alone.
pub fn admin_realm_admin_grant_check(
    realm_id: u128,
    found: Result<Option<users::User>, web::EngineError>,
    permissions: &Vec<String>,
) -> (r: Result<(), web::Reply<()>>)
    ensures
        match found {
            Err(_) => r is Err && r->Err_0 is ServerError,
            Ok(None) => r is Err && r->Err_0.not_found("User not found in this realm"@),
            Ok(Some(_)) => if text::texts(permissions@).contains("hearth.admin"@) {
                r is Err && r->Err_0.redirects(realm_address(realm_id))
            } else {
                r is Ok
            },
        },
{
    match found {
        Err(_) => Err(web::Reply::ServerError),
        Ok(None) => Err(web::Reply::missing("User not found in this realm")),
        Ok(Some(_)) => if users::check_user_admin(permissions) {
            Err(web::Reply::Redirect(realm_url(realm_id)))
        } else {
            Ok(())
        },
    }
}

/// Answers after the role was to be granted or revoked.
fn admin_role_outcome(
    session: &web::UiSession,
    realm_id: u128,
    user_id: u128,
    assigned: bool,
    done: Result<(), web::EngineError>,
) -> (r: web::Outcome<()>)
    ensures
        match done {
            Ok(_) => {
                &&& r.log() == seq![
                    members::role_event(
                        *session,
                        realm_id,
                        user_id,
                        assigned,
                        "hearth"@,
                        "admin"@,
                        "admin"@,
                    ),
                ]
                &&& r.reply.redirects(realm_address(realm_id))
            },
            Err(_) => r.is_silent() && r.reply is ServerError,
        },
{
    match done {
        Ok(_) => {
            let event = members::audit_role_event(
                session,
                realm_id,
                user_id,
                assigned,
                "hearth",
                "admin",
                "admin",
            );
            web::Outcome::logged(web::Reply::Redirect(realm_url(realm_id)), event)
        },
        Err(_) => web::Outcome::silent(web::Reply::ServerError),
    }
}

/// Answers after the engine tried to grant the role.
pub fn admin_realm_admin_grant(
    session: &web::UiSession,
    realm_id: u128,
    user_id: u128,
    granted: Result<(), web::EngineError>,
) -> (r: web::Outcome<()>)
    ensures
        match granted {
            Ok(_) => {
                &&& r.log() == seq![
                    members::role_event(
                        *session,
                        realm_id,
                        user_id,
                        true,
                        "hearth"@,
                        "admin"@,
                        "admin"@,
                    ),
                ]
                &&& r.reply.redirects(realm_address(realm_id))
            },
            Err(_) => r.is_silent() && r.reply is ServerError,
        },
{
    admin_role_outcome(session, realm_id, user_id, true, granted)
}

/// Reads which user is no longer to administer which realm. Nobody revokes the
/// own role, so that nobody is locked out by mistake.
pub fn admin_realm_admin_revoke_request(
    csrf_ok: bool,
    session: &web::UiSession,
    rid: &str,
    uid: &str,
) -> (r: Result<(u128, u128), web::Reply<()>>)
    ensures
        !csrf_ok ==> r is Err && r->Err_0 is Forbidden,
        csrf_ok ==> match (codec::uuid_of(rid@), codec::uuid_of(uid@)) {
            (None, _) => r is Err && r->Err_0.not_found("Realm not found"@),
            (Some(_), None) => r is Err && r->Err_0.not_found("User not found"@),
            (Some(realm_id), Some(user_id)) => if user_id == session.user_id {
                r is Err && r->Err_0.bad_request(
                    "Refusing to revoke your own admin role — have another admin do it."@,
                )
            } else {
                r is Ok && r->Ok_0 == (realm_id, user_id)
            },
        },
{
    let (realm_id, user_id) = match web::require_two(
        csrf_ok,
        rid,
        "Realm not found",
        uid,
        "User not found",
    ) {
        Ok(ids) => ids,
        Err(reply) => return Err(reply),
    };
    if user_id == session.user_id {
        return Err(
            web::Reply::BadRequest(
                "Refusing to revoke your own admin role — have another admin do it.".to_owned(),
            ),
        );
    }
    Ok((realm_id, user_id))
}

/// Decides whether the role has to be revoked: one who does not have it is left
/// alone.
pub fn admin_realm_admin_revoke_check(realm_id: u128, permissions: &Vec<String>) -> (r: Result<
    (),
    web::Reply<()>,
>)
    ensures
        if text::texts(permissions@).contains("hearth.admin"@) {
            r is Ok
        } else {
            r is Err && r->Err_0.redirects(realm_address(realm_id))
        },
{
    if users::check_user_admin(permissions) {
        Ok(())
    } else {
        Err(web::Reply::Redirect(realm_url(realm_id)))
    }
}

/// Answers after the engine tried to revoke the role.
pub fn admin_realm_admin_revoke(
    session: &web::UiSession,
    realm_id: u128,
    user_id: u128,
    revoked: Result<(), web::EngineError>,
) -> (r: web::Outcome<()>)
    ensures
        match revoked {
            Ok(_) => {
                &&& r.log() == seq![
                    members::role_event(
                        *session,
                        realm_id,
                        user_id,
                        false,
                        "hearth"@,
                        "admin"@,
                        "admin"@,
                    ),
                ]
                &&& r.reply.redirects(realm_address(realm_id))
            },
            Err(_) => r.is_silent() && r.reply is ServerError,
        },
{
    admin_role_outcome(session, realm_id, user_id, false, revoked)
}

// ---------------------------------------------------------------------------
// The picker
// ---------------------------------------------------------------------------

/// Query parameters of the administrator picker.
pub struct RealmAdminPickerParams {
    /// What to search for.
    pub q: String,
}

/// The rows of the administrator picker.
pub struct RealmAdminPickerRowsTemplate {
    pub realm_id: String,
    pub realm_name: String,
    pub users: Vec<users::User>,
    pub query: String,
    pub csrf: Option<String>,
}

/// The number of holders of a role on a page.
pub const ROLE_MEMBERS_PAGE: usize = 100;

/// Reads for which realm administrators are picked, where the address names it
/// by its UUID.
pub fn admin_realm_admin_picker_request(rid: &str) -> (r: Result<
    u128,
    web::Reply<RealmAdminPickerRowsTemplate>,
>)
    ensures
        web::names_one(r, true, rid@, "Realm not found"@),
{
    web::require_one(true, rid, "Realm not found")
}

/// Decides what the picker asks the engine for: nothing for less than two
/// bytes.
pub fn admin_realm_admin_picker_query(params: &RealmAdminPickerParams) -> (r: Option<
    users::UserSearch,
>)
    ensures
        users::searches(
            r,
            if text::byte_len(text::trimmed(params.q@)) >= 2 {
                Some(text::trimmed(params.q@))
            } else {
                None
            },
            users::PAGE_SIZE,
        ),
{
    let q = text::trim(params.q.as_str());
    if text::two_bytes_or_more(q.as_str()) {
        Some(users::UserSearch { text: q, limit: users::PAGE_SIZE })
    } else {
        None
    }
}

/// Shows the users who can be made administrators; nobody where nothing was
/// asked for or the search failed.
pub fn admin_realm_admin_picker(
    session: &web::UiSession,
    realm: &sessions::RealmRef,
    params: &RealmAdminPickerParams,
    found: Result<Vec<users::User>, web::EngineError>,
) -> (r: web::Reply<RealmAdminPickerRowsTemplate>)
    ensures
        r is Page && {
            let p = r->Page_0;
            &&& p.realm_id@ == codec::hyphenated(realm.id)
            &&& p.realm_name@ == realm.name@
            &&& match found {
                Ok(list) => if text::byte_len(text::trimmed(params.q@)) >= 2 {
                    p.users == list
                } else {
                    p.users@.len() == 0
                },
                Err(_) => p.users@.len() == 0,
            }
            &&& p.query@ == text::trimmed(params.q@)
            &&& text::opt_text(p.csrf) == text::opt_text(session.csrf)
        },
{
    let query = text::trim(params.q.as_str());
    let users = if text::two_bytes_or_more(query.as_str()) {
        match found {
            Ok(list) => list,
            Err(_) => Vec::new(),
        }
    } else {
        Vec::new()
    };
    web::Reply::Page(
        RealmAdminPickerRowsTemplate {
            realm_id: codec::uuid_text(realm.id),
            realm_name: realm.name.clone(),
            users,
            query,
            csrf: text::clone_opt(&session.csrf),
        },
    )
}

/// What is seen of a row is what it holds, each part under its own name.
pub proof fn law_rows_seen(a: RealmAdminView)
    ensures
        a@.user_id == a.user_id@,
        a@.display_name == a.display_name@,
        a@.email == a.email@,
        a@.is_system_admin == a.is_system_admin,
{
}

/// Whether a line tells of one who holds the role: a person who is still there,
/// by name, or by address where there is no name.
pub open spec fn tells_of(line: AdminLine, holder: RoleMember, is_system_admin: bool) -> bool {
    holder matches RoleMember::User { id, person: Some(p) } && line.user_id == codec::hyphenated(id)
        && line.email == p.email@ && line.display_name == (if p.display_name@.len() == 0 {
        p.email@
    } else {
        p.display_name@
    }) && line.is_system_admin == is_system_admin
}

/// Of those who hold the role, exactly the people who are still there are
/// collected, each by name and address.
pub proof fn law_admin_lines(items: Seq<RoleMember>, is_system_admin: bool, line: AdminLine)
    ensures
        admin_lines(items, is_system_admin).contains(line) <==> exists|i: int|
            0 <= i < items.len() && tells_of(line, #[trigger] items[i], is_system_admin),
    decreases items.len(),
{
    if items.len() > 0 {
        let rest = items.drop_last();
        law_admin_lines(rest, is_system_admin, line);
        let all = admin_lines(items, is_system_admin);
        let before = admin_lines(rest, is_system_admin);
        assert forall|i: int| 0 <= i < rest.len() implies #[trigger] rest[i] == items[i] by {}
        if before.contains(line) {
            let k = choose|k: int| 0 <= k < before.len() && before[k] == line;
            assert(all[k] == line);
            let i = choose|i: int|
                0 <= i < rest.len() && tells_of(line, #[trigger] rest[i], is_system_admin);
            assert(tells_of(line, items[i], is_system_admin));
        }
        if all.contains(line) && !before.contains(line) {
            let k = choose|k: int| 0 <= k < all.len() && all[k] == line;
            assert(k == before.len());
            assert(tells_of(line, items[items.len() - 1], is_system_admin));
        }
        if exists|i: int|
            0 <= i < items.len() && tells_of(line, #[trigger] items[i], is_system_admin) {
            let i = choose|i: int|
                0 <= i < items.len() && tells_of(line, #[trigger] items[i], is_system_admin);
            if i < rest.len() {
                assert(tells_of(line, rest[i], is_system_admin));
            } else {
                assert(all[before.len() as int] =~= line);
            }
        }
    }
}

/// The administrators of the system count in every realm but their own, where
/// they are administrators of the realm.
pub proof fn law_realm_admins(
    realm_id: u128,
    system_id: u128,
    own: Seq<sessions::Page<RoleMember>>,
    system: Seq<sessions::Page<RoleMember>>,
)
    ensures
        realm_id == system_id ==> realm_admins(realm_id, system_id, own, system) == admins_on(
            own,
            false,
        ),
        realm_id != system_id ==> realm_admins(realm_id, system_id, own, system) == admins_on(
            own,
            false,
        ) + admins_on(system, true),
{
    assert(admins_on(own, false) + Seq::<AdminLine>::empty() =~= admins_on(own, false));
}

/// Every page of those who hold the role is read, and none twice.
pub proof fn law_admins_on(pages: Seq<sessions::Page<RoleMember>>, is_system_admin: bool)
    ensures
        admins_on(pages, is_system_admin) == pages.map_values(
            |p: sessions::Page<RoleMember>| admin_lines(p.items@, is_system_admin),
        ).flatten(),
    decreases pages.len(),
{
    let f = |p: sessions::Page<RoleMember>| admin_lines(p.items@, is_system_admin);
    if pages.len() > 0 {
        law_admins_on(pages.drop_last(), is_system_admin);
        let all = pages.map_values(f);
        assert(all.drop_last() =~= pages.drop_last().map_values(f));
        all.lemma_flatten_and_flatten_alt_are_equivalent();
        all.drop_last().lemma_flatten_and_flatten_alt_are_equivalent();
    } else {
        assert(pages.map_values(f) =~= Seq::<Seq<AdminLine>>::empty());
        pages.map_values(f).lemma_flatten_and_flatten_alt_are_equivalent();
    }
}

/// A realm's page is found under its identifier.
pub proof fn law_realm_address(realm_id: u128)
    ensures
        realm_address(realm_id) == "/ui/admin/realms/"@ + codec::hyphenated(realm_id),
{
}

/// No administrator stands above one whose name comes earlier.
pub proof fn law_admins_in_order(collected: Seq<AdminLine>, i: int, j: int)
    requires
        0 <= i < j < shown_admins(collected).len(),
    ensures
        text::text_le(
            shown_admins(collected)[i].display_name,
            shown_admins(collected)[j].display_name,
        ),
{
    law_admins_by_name(collected);
    let shown = shown_admins(collected);
    assert(name_order()(shown[i], shown[j]));
}

/// The role's members are read a hundred at a time.
pub proof fn law_admin_limits()
    ensures
        ROLE_MEMBERS_PAGE == 100,
{
}

} // verus!
