//! Tools around access: what a user may do, what a token would say, which
//! scopes, permissions and claims there are.

use crate::access;
use crate::codec;
use crate::json;
use crate::order;
use crate::query;
use crate::text;
use crate::web;
use vstd::prelude::*;
use vstd::string::*;

verus! {

// ---------------------------------------------------------------------------
// What a user may do
// ---------------------------------------------------------------------------

/// Query parameters of the access page.
pub struct RbacDebugQuery {
    pub user_id: String,
    pub org_id: String,
    pub scope: String,
}

/// The address of the access page of a realm, with a query.
pub open spec fn access_address(realm_name: Seq<char>, raw_query: Option<Seq<char>>) -> Seq<char> {
    "/ui/admin/realms/"@ + realm_name + "/rbac/debug"@ + match raw_query {
        Some(q) => if q.len() == 0 {
            Seq::empty()
        } else {
            "?"@ + q
        },
        None => Seq::empty(),
    }
}

/// Redirects an old address of the access page, with its query and status 302.
pub fn admin_permissions_resolve_alias(realm_name: &str, raw_query: &Option<String>) -> (r:
    web::StatusRedirect)
    ensures
        r.status == 302,
        r.location@ == access_address(realm_name@, text::opt_text(*raw_query)),
{
    let suffix = match raw_query {
        Some(q) => if q.as_str().is_empty() {
            String::new()
        } else {
            "?".to_owned().concat(q.as_str())
        },
        None => String::new(),
    };
    let location = "/ui/admin/realms/".to_owned().concat(realm_name).concat("/rbac/debug").concat(
        suffix.as_str(),
    );
    web::StatusRedirect { status: 302, location }
}

/// A text without a prefix, where it has it.
pub open spec fn without_prefix(s: Seq<char>, prefix: Seq<char>) -> Seq<char> {
    if text::has_prefix(s, prefix) {
        s.skip(prefix.len() as int)
    } else {
        s
    }
}

fn drop_prefix(s: &str, prefix: &str) -> (r: String)
    ensures
        r@ == without_prefix(s@, prefix@),
{
    match text::strip_prefix(s, prefix) {
        Some(rest) => rest,
        None => s.to_owned(),
    }
}

/// What the engine is asked to resolve.
pub struct ResolveRequest {
    pub user_id: u128,
    pub org_id: Option<u128>,
    pub scope: Option<String>,
}

/// What the access page asks for.
pub enum DebugQuery {
    /// Nothing: no user is named.
    Nothing,
    /// The user is no UUID.
    Invalid,
    /// What a user may do.
    Resolve(ResolveRequest),
}

/// The user that an input names, given how UUIDs are read.
pub open spec fn named_user(input: Seq<char>, id_of: spec_fn(Seq<char>) -> Option<u128>) -> Option<
    u128,
> {
    id_of(without_prefix(input, "user_"@))
}

/// The organization that an input names; nothing where it names none.
pub open spec fn named_org(input: Seq<char>, id_of: spec_fn(Seq<char>) -> Option<u128>) -> Option<
    u128,
> {
    if input.len() == 0 {
        None
    } else {
        id_of(without_prefix(input, "org_"@))
    }
}

/// Whether `r` is what the inputs ask for.
pub open spec fn asks_access(r: DebugQuery, q: RbacDebugQuery) -> bool {
    let user = text::trimmed(q.user_id@);
    if user.len() == 0 {
        r is Nothing
    } else {
        match named_user(user, access::uuid_reading()) {
            None => r is Invalid,
            Some(id) => r is Resolve && {
                let request = r->Resolve_0;
                let scope = text::trimmed(q.scope@);
                &&& request.user_id == id
                &&& request.org_id == named_org(text::trimmed(q.org_id@), access::uuid_reading())
                &&& text::opt_text(request.scope) == if scope.len() == 0 {
                    None
                } else {
                    Some(scope)
                }
            },
        }
    }
}

/// Reads what the access page asks for.
pub fn admin_rbac_debug_query(q: &RbacDebugQuery) -> (r: DebugQuery)
    ensures
        asks_access(r, *q),
{
    let user = text::trim(q.user_id.as_str());
    if user.as_str().is_empty() {
        return DebugQuery::Nothing;
    }
    match codec::parse_uuid(drop_prefix(user.as_str(), "user_").as_str()) {
        None => DebugQuery::Invalid,
        Some(user_id) => {
            let org = text::trim(q.org_id.as_str());
            let org_id = if org.as_str().is_empty() {
                None
            } else {
                codec::parse_uuid(drop_prefix(org.as_str(), "org_").as_str())
            };
            let scope_input = text::trim(q.scope.as_str());
            let scope = if scope_input.as_str().is_empty() {
                None
            } else {
                Some(scope_input)
            };
            DebugQuery::Resolve(ResolveRequest { user_id, org_id, scope })
        },
    }
}

/// What a user has, as the engine resolves it.
pub struct ResolvedAccess {
    pub roles: Vec<String>,
    pub groups: Vec<String>,
    pub permissions: Vec<String>,
}

/// The access page.
pub struct RbacDebugTemplate {
    pub realm_name: String,
    pub user_id_input: String,
    pub org_id_input: String,
    pub scope_input: String,
    pub access: ResolvedAccess,
    pub realm_uuid: String,
    pub error: Option<String>,
    pub chrome: web::Chrome,
}

/// Whether nothing is shown.
pub open spec fn shows_nothing(a: ResolvedAccess) -> bool {
    a.roles@.len() == 0 && a.groups@.len() == 0 && a.permissions@.len() == 0
}

/// Shows what a user may do; `asked` is what the inputs ask for, `resolved`
/// what the engine made of it.
pub fn admin_rbac_debug(
    site: &web::Site,
    session: &web::UiSession,
    target: &web::TargetRealm,
    q: &RbacDebugQuery,
    asked: &DebugQuery,
    resolved: Result<ResolvedAccess, web::EngineError>,
) -> (r: web::Reply<RbacDebugTemplate>)
    ensures
        r is Page && {
            let p = r->Page_0;
            &&& p.realm_name@ == target.name@
            &&& p.user_id_input@ == text::trimmed(q.user_id@)
            &&& p.org_id_input@ == text::trimmed(q.org_id@)
            &&& p.scope_input@ == text::trimmed(q.scope@)
            &&& p.realm_uuid@ == codec::hyphenated(target.id)
            &&& match (asked, resolved) {
                (DebugQuery::Nothing, _) => shows_nothing(p.access) && p.error is None,
                (DebugQuery::Invalid, _) => shows_nothing(p.access) && text::opt_text(p.error)
                    == Some("Invalid user UUID"@),
                (DebugQuery::Resolve(_), Ok(a)) => p.access == a && p.error is None,
                (DebugQuery::Resolve(_), Err(e)) => shows_nothing(p.access) && text::opt_text(
                    p.error,
                ) == Some("Resolution failed: "@ + e.text@),
            }
            &&& p.chrome.is_admin_page(*site, *session, "rbac_debug"@)
            &&& p.chrome.flash is None
        },
{
    let nothing = ResolvedAccess {
        roles: Vec::new(),
        groups: Vec::new(),
        permissions: Vec::new(),
    };
    let (access, error) = match asked {
        DebugQuery::Nothing => (nothing, None),
        DebugQuery::Invalid => (nothing, Some("Invalid user UUID".to_owned())),
        DebugQuery::Resolve(_) => match resolved {
            Ok(a) => (a, None),
            Err(e) => (
                nothing,
                Some("Resolution failed: ".to_owned().concat(e.text.as_str())),
            ),
        },
    };
    web::Reply::Page(
        RbacDebugTemplate {
            realm_name: target.name.clone(),
            user_id_input: text::trim(q.user_id.as_str()),
            org_id_input: text::trim(q.org_id.as_str()),
            scope_input: text::trim(q.scope.as_str()),
            access,
            realm_uuid: codec::uuid_text(target.id),
            error,
            chrome: web::Chrome::admin(site, session, "rbac_debug"),
        },
    )
}

// ---------------------------------------------------------------------------
// What a token would say
// ---------------------------------------------------------------------------

/// The form that previews a token.
pub struct TokenPreviewForm {
    /// UUID of the user, with or without `user_` before it.
    pub user_id: String,
}

/// The user whose token is previewed.
pub fn admin_rbac_token_preview_user(form: &TokenPreviewForm) -> (r: Option<u128>)
    ensures
        r == named_user(text::trimmed(form.user_id@), access::uuid_reading()),
{
    let input = text::trim(form.user_id.as_str());
    codec::parse_uuid(drop_prefix(input.as_str(), "user_").as_str())
}

/// The claims that the preview shows: an error, or what the user has.
pub open spec fn preview_claims(
    user_id: Option<u128>,
    realm_id: u128,
    resolved: Result<ResolvedAccess, web::EngineError>,
) -> Seq<(Seq<char>, json::FieldView)> {
    match (user_id, resolved) {
        (None, _) => seq![("error"@, json::FieldView::Text("Invalid user UUID"@))],
        (Some(_), Err(e)) => seq![
            ("error"@, json::FieldView::Text("Resolution failed: "@ + e.text@)),
        ],
        (Some(id), Ok(a)) => seq![
            ("sub"@, json::FieldView::Text("user_"@ + codec::hyphenated(id))),
            ("oid"@, json::FieldView::Null),
            ("realm"@, json::FieldView::Text(codec::hyphenated(realm_id))),
            ("roles"@, json::FieldView::Texts(text::texts(a.roles@))),
            ("groups"@, json::FieldView::Texts(text::texts(a.groups@))),
            ("permissions"@, json::FieldView::Texts(text::texts(a.permissions@))),
            ("_note"@, json::FieldView::Text("Mock preview — iss/aud/exp/iat omitted"@)),
        ],
    }
}

/// What a user has stands in the preview under its own name: the roles under
/// "roles", the groups under "groups", the permissions under "permissions". A
/// user that is not known, or whose access does not resolve, leaves nothing but
/// an error.
pub proof fn law_preview_claims(
    user_id: Option<u128>,
    realm_id: u128,
    resolved: Result<ResolvedAccess, web::EngineError>,
)
    ensures
        user_id matches Some(id) ==> (resolved matches Ok(a) ==> {
            &&& json::value_of(preview_claims(user_id, realm_id, resolved), "sub"@) == Some(
                json::FieldView::Text("user_"@ + codec::hyphenated(id)),
            )
            &&& json::value_of(preview_claims(user_id, realm_id, resolved), "oid"@) == Some(
                json::FieldView::Null,
            )
            &&& json::value_of(preview_claims(user_id, realm_id, resolved), "realm"@) == Some(
                json::FieldView::Text(codec::hyphenated(realm_id)),
            )
            &&& json::value_of(preview_claims(user_id, realm_id, resolved), "roles"@) == Some(
                json::FieldView::Texts(text::texts(a.roles@)),
            )
            &&& json::value_of(preview_claims(user_id, realm_id, resolved), "groups"@) == Some(
                json::FieldView::Texts(text::texts(a.groups@)),
            )
            &&& json::value_of(preview_claims(user_id, realm_id, resolved), "permissions"@) == Some(
                json::FieldView::Texts(text::texts(a.permissions@)),
            )
            &&& json::value_of(preview_claims(user_id, realm_id, resolved), "_note"@) == Some(
                json::FieldView::Text("Mock preview — iss/aud/exp/iat omitted"@),
            )
            &&& json::value_of(preview_claims(user_id, realm_id, resolved), "error"@) is None
        }),
        user_id is Some ==> (resolved matches Err(e) ==> {
            &&& json::value_of(preview_claims(user_id, realm_id, resolved), "error"@) == Some(
                json::FieldView::Text("Resolution failed: "@ + e.text@),
            )
            &&& forall|name: Seq<char>|
                name != "error"@ ==> #[trigger] json::value_of(
                    preview_claims(user_id, realm_id, resolved),
                    name,
                ) is None
        }),
        user_id is None ==> {
            &&& json::value_of(preview_claims(user_id, realm_id, resolved), "error"@) == Some(
                json::FieldView::Text("Invalid user UUID"@),
            )
            &&& forall|name: Seq<char>|
                name != "error"@ ==> #[trigger] json::value_of(
                    preview_claims(user_id, realm_id, resolved),
                    name,
                ) is None
        },
{
    let claims = preview_claims(user_id, realm_id, resolved);
    lemma_claim_names();
    if user_id is Some && resolved is Ok {
        let c6 = claims.drop_last();
        let c5 = c6.drop_last();
        let c4 = c5.drop_last();
        let c3 = c4.drop_last();
        let c2 = c3.drop_last();
        let c1 = c2.drop_last();
        assert(claims.last().0 == "_note"@);
        assert(c6.last().0 == "permissions"@);
        assert(c5.last().0 == "groups"@);
        assert(c4.last().0 == "roles"@);
        assert(c3.last().0 == "realm"@);
        assert(c2.last().0 == "oid"@);
        assert(c1.last().0 == "sub"@);
        assert(c1.drop_last().len() == 0);
        reveal_with_fuel(json::value_of, 8);
    } else {
        assert(claims.drop_last().len() == 0);
        reveal_with_fuel(json::value_of, 2);
    }
}

/// The names of the claims differ.
proof fn lemma_claim_names()
    ensures
        "sub"@ != "oid"@,
        "sub"@ != "realm"@,
        "sub"@ != "roles"@,
        "sub"@ != "groups"@,
        "sub"@ != "permissions"@,
        "sub"@ != "_note"@,
        "sub"@ != "error"@,
        "oid"@ != "realm"@,
        "oid"@ != "roles"@,
        "oid"@ != "groups"@,
        "oid"@ != "permissions"@,
        "oid"@ != "_note"@,
        "oid"@ != "error"@,
        "realm"@ != "roles"@,
        "realm"@ != "groups"@,
        "realm"@ != "permissions"@,
        "realm"@ != "_note"@,
        "realm"@ != "error"@,
        "roles"@ != "groups"@,
        "roles"@ != "permissions"@,
        "roles"@ != "_note"@,
        "roles"@ != "error"@,
        "groups"@ != "permissions"@,
        "groups"@ != "_note"@,
        "groups"@ != "error"@,
        "permissions"@ != "_note"@,
        "permissions"@ != "error"@,
        "_note"@ != "error"@,
{
    reveal_strlit("sub");
    reveal_strlit("oid");
    reveal_strlit("realm");
    reveal_strlit("roles");
    reveal_strlit("groups");
    reveal_strlit("permissions");
    reveal_strlit("_note");
    reveal_strlit("error");
    assert("sub"@[0] == 's' && "oid"@[0] == 'o' && "groups"@[0] == 'g');
    assert("permissions"@[0] == 'p' && "error"@[0] == 'e' && "realm"@[0] == 'r');
    assert("realm"@[1] == 'e' && "roles"@[1] == 'o' && "_note"@[1] == 'n' && "error"@[1] == 'r');
}

/// Collects the claims that the preview shows.
pub fn token_preview_claims(
    user_id: Option<u128>,
    realm_id: u128,
    resolved: Result<ResolvedAccess, web::EngineError>,
) -> (r: Vec<(String, json::Field)>)
    ensures
        json::fields_of(r@) == preview_claims(user_id, realm_id, resolved),
        user_id matches Some(id) ==> (resolved matches Ok(a) ==> {
            &&& json::value_of(json::fields_of(r@), "sub"@) == Some(
                json::FieldView::Text("user_"@ + codec::hyphenated(id)),
            )
            &&& json::value_of(json::fields_of(r@), "oid"@) == Some(json::FieldView::Null)
            &&& json::value_of(json::fields_of(r@), "realm"@) == Some(
                json::FieldView::Text(codec::hyphenated(realm_id)),
            )
            &&& json::value_of(json::fields_of(r@), "roles"@) == Some(
                json::FieldView::Texts(text::texts(a.roles@)),
            )
            &&& json::value_of(json::fields_of(r@), "groups"@) == Some(
                json::FieldView::Texts(text::texts(a.groups@)),
            )
            &&& json::value_of(json::fields_of(r@), "permissions"@) == Some(
                json::FieldView::Texts(text::texts(a.permissions@)),
            )
            &&& json::value_of(json::fields_of(r@), "_note"@) == Some(
                json::FieldView::Text("Mock preview — iss/aud/exp/iat omitted"@),
            )
            &&& json::value_of(json::fields_of(r@), "error"@) is None
        }),
        user_id is Some ==> (resolved matches Err(e) ==> {
            &&& json::value_of(json::fields_of(r@), "error"@) == Some(
                json::FieldView::Text("Resolution failed: "@ + e.text@),
            )
            &&& forall|name: Seq<char>|
                name != "error"@ ==> #[trigger] json::value_of(json::fields_of(r@), name) is None
        }),
        user_id is None ==> {
            &&& json::value_of(json::fields_of(r@), "error"@) == Some(
                json::FieldView::Text("Invalid user UUID"@),
            )
            &&& forall|name: Seq<char>|
                name != "error"@ ==> #[trigger] json::value_of(json::fields_of(r@), name) is None
        },
{
    proof {
        law_preview_claims(user_id, realm_id, resolved);
    }
    let mut r: Vec<(String, json::Field)> = Vec::new();
    match user_id {
        None => {
            r.push(("error".to_owned(), json::Field::Text("Invalid user UUID".to_owned())));
        },
        Some(id) => match resolved {
            Err(e) => {
                let error = "Resolution failed: ".to_owned().concat(e.text.as_str());
                r.push(("error".to_owned(), json::Field::Text(error)));
            },
            Ok(a) => {
                let sub = "user_".to_owned().concat(codec::uuid_text(id).as_str());
                r.push(("sub".to_owned(), json::Field::Text(sub)));
                r.push(("oid".to_owned(), json::Field::Null));
                r.push(("realm".to_owned(), json::Field::Text(codec::uuid_text(realm_id))));
                r.push(("roles".to_owned(), json::Field::Texts(a.roles)));
                r.push(("groups".to_owned(), json::Field::Texts(a.groups)));
                r.push(("permissions".to_owned(), json::Field::Texts(a.permissions)));
                let note = "Mock preview — iss/aud/exp/iat omitted".to_owned();
                r.push(("_note".to_owned(), json::Field::Text(note)));
            },
        },
    }
    proof {
        assert(json::fields_of(r@) =~= preview_claims(user_id, realm_id, resolved));
    }
    r
}

/// Writes the claims that a token of a user would hold, as indented JSON;
/// nothing where JSON fails.
pub fn admin_rbac_token_preview(
    user_id: Option<u128>,
    realm_id: u128,
    resolved: Result<ResolvedAccess, web::EngineError>,
) -> (r: String)
    ensures
        r@ == match json::object_json(preview_claims(user_id, realm_id, resolved)) {
            Some(s) => s,
            None => Seq::empty(),
        },
{
    let claims = token_preview_claims(user_id, realm_id, resolved);
    match json::write_object(&claims) {
        Some(s) => s,
        None => String::new(),
    }
}

// ---------------------------------------------------------------------------
// Scopes
// ---------------------------------------------------------------------------

/// A scope bundle as it is configured.
pub struct ScopeBundle {
    pub name: String,
    pub description: Option<String>,
    pub permissions: Vec<String>,
}

/// A scope bundle on the page.
pub struct ScopeRow {
    pub name: String,
    pub description: String,
    /// The permissions, separated by commas.
    pub permissions: String,
}

impl View for ScopeRow {
    type V = (Seq<char>, Seq<char>, Seq<char>);

    open spec fn view(&self) -> (Seq<char>, Seq<char>, Seq<char>) {
        (self.name@, self.description@, self.permissions@)
    }
}

/// How a bundle is shown: name, description and permissions.
pub open spec fn scope_row(b: ScopeBundle) -> (Seq<char>, Seq<char>, Seq<char>) {
    (
        b.name@,
        access::text_or_empty(b.description),
        text::joined(text::texts(b.permissions@), ", "@),
    )
}

/// How bundles are shown.
pub open spec fn scope_rows(bundles: Seq<ScopeBundle>) -> Seq<(Seq<char>, Seq<char>, Seq<char>)> {
    Seq::new(bundles.len(), |i: int| scope_row(bundles[i]))
}

/// The scopes page.
pub struct RbacScopesTemplate {
    pub scopes: Vec<ScopeRow>,
    pub chrome: web::Chrome,
}

/// Shows the scope bundles that are configured for a realm.
pub fn admin_rbac_scopes(
    site: &web::Site,
    session: &web::UiSession,
    bundles: &Option<Vec<ScopeBundle>>,
) -> (r: web::Reply<RbacScopesTemplate>)
    ensures
        r is Page && {
            let p = r->Page_0;
            &&& text::views(p.scopes@) == match bundles {
                Some(list) => scope_rows(list@),
                None => Seq::empty(),
            }
            &&& p.chrome.is_admin_page(*site, *session, "rbac_scopes"@)
            &&& p.chrome.flash is None
        },
{
    let mut scopes: Vec<ScopeRow> = Vec::new();
    if let Some(list) = bundles {
        let mut i: usize = 0;
        while i < list.len()
            invariant
                i <= list.len(),
                scopes.len() == i,
                forall|j: int| 0 <= j < i ==> (#[trigger] scopes@[j])@ == scope_row(list@[j]),
            decreases list.len() - i,
        {
            let b = &list[i];
            scopes.push(
                ScopeRow {
                    name: b.name.clone(),
                    description: access::or_empty(&b.description),
                    permissions: text::join(&b.permissions, ", "),
                },
            );
            i += 1;
        }
        proof {
            assert(text::views(scopes@) =~= scope_rows(list@));
        }
    } else {
        proof {
            assert(text::views(scopes@) =~= Seq::<(Seq<char>, Seq<char>, Seq<char>)>::empty());
        }
    }
    web::Reply::Page(
        RbacScopesTemplate { scopes, chrome: web::Chrome::admin(site, session, "rbac_scopes") },
    )
}

// ---------------------------------------------------------------------------
// Permissions
// ---------------------------------------------------------------------------

/// A permission as it is configured.
pub struct DeclaredPermission {
    pub name: String,
    pub description: Option<String>,
}

/// A permission on the page.
pub struct PermissionRow {
    pub name: String,
    pub description: String,
    /// Whether the permission is configured.
    pub declared: bool,
    /// Whether the permission is built in.
    pub seed_bundled: bool,
    /// The roles that grant it, each once, sorted.
    pub roles: Vec<String>,
}

/// A permission row without its representation.
#[verifier::ext_equal]
pub struct PermissionLine {
    pub name: Seq<char>,
    pub description: Seq<char>,
    pub declared: bool,
    pub seed_bundled: bool,
    pub roles: Seq<Seq<char>>,
}

impl View for PermissionRow {
    type V = PermissionLine;

    open spec fn view(&self) -> PermissionLine {
        PermissionLine {
            name: self.name@,
            description: self.description@,
            declared: self.declared,
            seed_bundled: self.seed_bundled,
            roles: text::texts(self.roles@),
        }
    }
}

/// The names of configured permissions.
pub open spec fn declared_names(declared: Seq<DeclaredPermission>) -> Seq<Seq<char>> {
    Seq::new(declared.len(), |i: int| declared[i].name@)
}

/// The names of the permissions that are known: configured, or granted by a
/// role; each once, in order.
pub open spec fn known_names(declared: Seq<DeclaredPermission>, roles: Seq<access::Role>) -> Seq<
    Seq<char>,
> {
    order::sorted_set(declared_names(declared) + access::all_permissions(roles))
}

/// The description under which a permission is configured, where it is; the
/// last one counts.
pub open spec fn declared_description(
    declared: Seq<DeclaredPermission>,
    name: Seq<char>,
) -> Option<Seq<char>>
    decreases declared.len(),
{
    if declared.len() == 0 {
        None
    } else if declared.last().name@ == name {
        Some(access::text_or_empty(declared.last().description))
    } else {
        declared_description(declared.drop_last(), name)
    }
}

/// The names of the roles that grant a permission.
pub open spec fn granting(roles: Seq<access::Role>, name: Seq<char>) -> Seq<Seq<char>>
    decreases roles.len(),
{
    if roles.len() == 0 {
        Seq::empty()
    } else {
        let before = granting(roles.drop_last(), name);
        if text::texts(roles.last().permissions@).contains(name) {
            before.push(roles.last().name@)
        } else {
            before
        }
    }
}

/// How a permission is shown. `seed` is the description of a built-in
/// permission, which stands in for a missing one.
pub open spec fn permission_line(
    declared: Seq<DeclaredPermission>,
    roles: Seq<access::Role>,
    name: Seq<char>,
    seed: Option<Seq<char>>,
) -> PermissionLine {
    let own = match declared_description(declared, name) {
        Some(d) => d,
        None => Seq::empty(),
    };
    PermissionLine {
        name,
        description: match seed {
            Some(d) => if own.len() == 0 {
                d
            } else {
                own
            },
            None => own,
        },
        declared: declared_description(declared, name) is Some,
        seed_bundled: seed is Some,
        roles: order::sorted_set(granting(roles, name)),
    }
}

/// Lists the names of the permissions that are known.
pub fn admin_rbac_permissions_names(
    declared: &Vec<DeclaredPermission>,
    roles: &Vec<access::Role>,
) -> (r: Vec<String>)
    ensures
        text::texts(r@) == known_names(declared@, roles@),
{
    let mut all: Vec<String> = Vec::new();
    let mut i: usize = 0;
    while i < declared.len()
        invariant
            i <= declared.len(),
            all.len() == i,
            forall|j: int| 0 <= j < i ==> (#[trigger] all@[j])@ == declared@[j].name@,
        decreases declared.len() - i,
    {
        all.push(declared[i].name.clone());
        i += 1;
    }
    let ghost names = declared_names(declared@);
    let mut k: usize = 0;
    proof {
        assert(text::texts(all@) =~= names + access::all_permissions(roles@.take(0)));
    }
    while k < roles.len()
        invariant
            k <= roles.len(),
            text::texts(all@) == names + access::all_permissions(roles@.take(k as int)),
        decreases roles.len() - k,
    {
        proof {
            assert(roles@.take(k + 1).drop_last() =~= roles@.take(k as int));
        }
        access::extend(&mut all, &roles[k].permissions);
        proof {
            assert(text::texts(all@) =~= names + access::all_permissions(roles@.take(k + 1)));
        }
        k += 1;
    }
    proof {
        assert(roles@.take(roles@.len() as int) =~= roles@);
    }
    order::sort_dedup(all)
}

fn find_description(declared: &Vec<DeclaredPermission>, name: &str) -> (r: Option<String>)
    ensures
        text::opt_text(r) == declared_description(declared@, name@),
{
    let mut i: usize = declared.len();
    proof {
        assert(declared@.take(i as int) =~= declared@);
    }
    while i > 0
        invariant
            i <= declared.len(),
            declared_description(declared@, name@) == declared_description(
                declared@.take(i as int),
                name@,
            ),
        decreases i,
    {
        proof {
            assert(declared@.take(i as int).drop_last() =~= declared@.take(i - 1));
        }
        i -= 1;
        if text::same(declared[i].name.as_str(), name) {
            return Some(access::or_empty(&declared[i].description));
        }
    }
    None
}

fn granting_roles(roles: &Vec<access::Role>, name: &str) -> (r: Vec<String>)
    ensures
        text::texts(r@) == granting(roles@, name@),
{
    broadcast use text::lemma_texts_push;

    let mut r: Vec<String> = Vec::new();
    let mut i: usize = 0;
    proof {
        assert(text::texts(r@) =~= granting(roles@.take(0), name@));
    }
    while i < roles.len()
        invariant
            i <= roles.len(),
            text::texts(r@) == granting(roles@.take(i as int), name@),
        decreases roles.len() - i,
    {
        proof {
            assert(roles@.take(i + 1).drop_last() =~= roles@.take(i as int));
        }
        if order::contains_text(&roles[i].permissions, name) {
            r.push(roles[i].name.clone());
        }
        i += 1;
    }
    proof {
        assert(roles@.take(roles@.len() as int) =~= roles@);
    }
    r
}

/// A known permission with the description of its built-in namesake.
pub struct NamedPermission {
    pub name: String,
    pub seed: Option<String>,
}

/// How permissions are shown.
pub open spec fn permission_lines(
    declared: Seq<DeclaredPermission>,
    roles: Seq<access::Role>,
    names: Seq<NamedPermission>,
) -> Seq<PermissionLine> {
    Seq::new(
        names.len(),
        |i: int| permission_line(declared, roles, names[i].name@, text::opt_text(names[i].seed)),
    )
}

/// The permissions page.
pub struct RbacPermissionsTemplate {
    pub permissions: Vec<PermissionRow>,
    pub chrome: web::Chrome,
}

/// Shows the permissions of a realm. `names` are those that are known, each
/// with the description of its built-in namesake.
pub fn admin_rbac_permissions(
    site: &web::Site,
    session: &web::UiSession,
    declared: &Vec<DeclaredPermission>,
    roles: &Vec<access::Role>,
    names: &Vec<NamedPermission>,
) -> (r: web::Reply<RbacPermissionsTemplate>)
    ensures
        r is Page && {
            let p = r->Page_0;
            &&& text::views(p.permissions@) == permission_lines(declared@, roles@, names@)
            &&& p.chrome.is_admin_page(*site, *session, "rbac_permissions"@)
            &&& p.chrome.flash is None
        },
{
    let mut rows: Vec<PermissionRow> = Vec::new();
    let mut i: usize = 0;
    while i < names.len()
        invariant
            i <= names.len(),
            rows.len() == i,
            forall|j: int|
                0 <= j < i ==> (#[trigger] rows@[j])@ == permission_line(
                    declared@,
                    roles@,
                    names@[j].name@,
                    text::opt_text(names@[j].seed),
                ),
        decreases names.len() - i,
    {
        let n = &names[i];
        let own = find_description(declared, n.name.as_str());
        let is_declared = own.is_some();
        let written = access::or_empty(&own);
        let description = match &n.seed {
            Some(d) => if written.as_str().is_empty() {
                d.clone()
            } else {
                written
            },
            None => written,
        };
        rows.push(
            PermissionRow {
                name: n.name.clone(),
                description,
                declared: is_declared,
                seed_bundled: n.seed.is_some(),
                roles: order::sort_dedup(granting_roles(roles, n.name.as_str())),
            },
        );
        i += 1;
    }
    proof {
        assert(text::views(rows@) =~= permission_lines(declared@, roles@, names@));
    }
    web::Reply::Page(
        RbacPermissionsTemplate {
            permissions: rows,
            chrome: web::Chrome::admin(site, session, "rbac_permissions"),
        },
    )
}

/// The known permissions are exactly those that are configured or granted by a
/// role; each stands once, in order.
pub proof fn law_known_permissions(
    declared: Seq<DeclaredPermission>,
    roles: Seq<access::Role>,
    name: Seq<char>,
)
    ensures
        order::ascending(known_names(declared, roles)),
        known_names(declared, roles).contains(name) <==> declared_description(declared, name)
            is Some || granting(roles, name).len() > 0,
{
    let a = declared_names(declared);
    let b = access::all_permissions(roles);
    order::law_sorted_set(a + b);
    assert(known_names(declared, roles).contains(name) <==> (a + b).contains(name));
    assert((a + b).contains(name) <==> a.contains(name) || b.contains(name)) by {
        if (a + b).contains(name) {
            let k = choose|k: int| 0 <= k < (a + b).len() && (a + b)[k] == name;
            if k < a.len() {
                assert(a[k] == name);
            } else {
                assert(b[k - a.len()] == name);
            }
        }
        if a.contains(name) {
            let k = choose|k: int| 0 <= k < a.len() && a[k] == name;
            assert((a + b)[k] == name);
        }
        if b.contains(name) {
            let k = choose|k: int| 0 <= k < b.len() && b[k] == name;
            assert((a + b)[a.len() + k] == name);
        }
    }
    lemma_declared(declared, name);
    lemma_granting(roles, name);
}

proof fn lemma_declared(declared: Seq<DeclaredPermission>, name: Seq<char>)
    ensures
        declared_names(declared).contains(name) <==> declared_description(declared, name) is Some,
    decreases declared.len(),
{
    let names = declared_names(declared);
    if declared.len() > 0 {
        let rest = declared.drop_last();
        lemma_declared(rest, name);
        if names.contains(name) && declared.last().name@ != name {
            let k = choose|k: int| 0 <= k < names.len() && names[k] == name;
            assert(declared_names(rest)[k] == name);
        }
        if declared_description(declared, name) is Some {
            if declared.last().name@ == name {
                assert(names[names.len() - 1] == name);
            } else {
                let k = choose|k: int|
                    0 <= k < declared_names(rest).len() && declared_names(rest)[k] == name;
                assert(names[k] == name);
            }
        }
    }
}

proof fn lemma_granting(roles: Seq<access::Role>, name: Seq<char>)
    ensures
        access::all_permissions(roles).contains(name) <==> granting(roles, name).len() > 0,
    decreases roles.len(),
{
    if roles.len() > 0 {
        let rest = roles.drop_last();
        lemma_granting(rest, name);
        let a = access::all_permissions(rest);
        let b = text::texts(roles.last().permissions@);
        let all = access::all_permissions(roles);
        if all.contains(name) {
            let k = choose|k: int| 0 <= k < all.len() && all[k] == name;
            if k < a.len() {
                assert(a[k] == name);
            } else {
                assert(b[k - a.len()] == name);
            }
        }
        if a.contains(name) {
            let k = choose|k: int| 0 <= k < a.len() && a[k] == name;
            assert(all[k] == name);
        }
        if b.contains(name) {
            let k = choose|k: int| 0 <= k < b.len() && b[k] == name;
            assert(all[a.len() + k] == name);
        }
    }
}

// ---------------------------------------------------------------------------
// Claims
// ---------------------------------------------------------------------------

/// Where the value of a claim comes from.
pub enum ClaimSource {
    RolesFromAssignments,
    GroupsFromMemberships,
    EffectivePermissions,
    OrgContext,
    /// A field of the user, by its name in ASCII.
    CanonicalUserField { field: String },
    UserAttribute { attribute: String },
    RoleSubset { prefix: String },
    Constant { value: String },
    Omit,
}

/// How a source is called.
pub open spec fn source_label(source: ClaimSource) -> Seq<char> {
    match source {
        ClaimSource::RolesFromAssignments => "roles_from_assignments"@,
        ClaimSource::GroupsFromMemberships => "groups_from_memberships"@,
        ClaimSource::EffectivePermissions => "effective_permissions"@,
        ClaimSource::OrgContext => "org_context"@,
        ClaimSource::CanonicalUserField { field } => text::lowered("user."@ + field@),
        ClaimSource::UserAttribute { attribute } => "attribute:"@ + attribute@,
        ClaimSource::RoleSubset { prefix } => "role_subset:"@ + prefix@,
        ClaimSource::Constant { value } => "constant:"@ + value@,
        ClaimSource::Omit => "omit"@,
    }
}

/// Names the source of a claim.
pub fn claim_source_label(source: &ClaimSource) -> (r: String)
    ensures
        r@ == source_label(*source),
{
    match source {
        ClaimSource::RolesFromAssignments => "roles_from_assignments".to_owned(),
        ClaimSource::GroupsFromMemberships => "groups_from_memberships".to_owned(),
        ClaimSource::EffectivePermissions => "effective_permissions".to_owned(),
        ClaimSource::OrgContext => "org_context".to_owned(),
        ClaimSource::CanonicalUserField { field } => text::to_lower(
            "user.".to_owned().concat(field.as_str()).as_str(),
        ),
        ClaimSource::UserAttribute { attribute } => "attribute:".to_owned().concat(
            attribute.as_str(),
        ),
        ClaimSource::RoleSubset { prefix } => "role_subset:".to_owned().concat(prefix.as_str()),
        ClaimSource::Constant { value } => "constant:".to_owned().concat(value.as_str()),
        ClaimSource::Omit => "omit".to_owned(),
    }
}

/// A claim as it is configured.
pub struct ClaimMapping {
    pub claim: String,
    pub source: ClaimSource,
    pub include_in_access_token: bool,
    pub include_in_id_token: bool,
    pub include_in_userinfo: bool,
    pub first_party_only: bool,
    pub required_scopes: Option<Vec<String>>,
}

/// A claim on the page.
pub struct ClaimMappingRow {
    pub claim: String,
    pub source: String,
    pub include_in_access_token: bool,
    pub include_in_id_token: bool,
    pub include_in_userinfo: bool,
    pub first_party_only: bool,
    pub required_scopes: Vec<String>,
}

/// A claim row without its representation.
#[verifier::ext_equal]
pub struct ClaimLine {
    pub claim: Seq<char>,
    pub source: Seq<char>,
    pub include_in_access_token: bool,
    pub include_in_id_token: bool,
    pub include_in_userinfo: bool,
    pub first_party_only: bool,
    pub required_scopes: Seq<Seq<char>>,
}

impl View for ClaimMappingRow {
    type V = ClaimLine;

    open spec fn view(&self) -> ClaimLine {
        ClaimLine {
            claim: self.claim@,
            source: self.source@,
            include_in_access_token: self.include_in_access_token,
            include_in_id_token: self.include_in_id_token,
            include_in_userinfo: self.include_in_userinfo,
            first_party_only: self.first_party_only,
            required_scopes: text::texts(self.required_scopes@),
        }
    }
}

/// How a claim is shown.
pub open spec fn claim_line(m: ClaimMapping) -> ClaimLine {
    ClaimLine {
        claim: m.claim@,
        source: source_label(m.source),
        include_in_access_token: m.include_in_access_token,
        include_in_id_token: m.include_in_id_token,
        include_in_userinfo: m.include_in_userinfo,
        first_party_only: m.first_party_only,
        required_scopes: match m.required_scopes {
            Some(v) => text::texts(v@),
            None => Seq::empty(),
        },
    }
}

/// How claims are shown.
pub open spec fn claim_lines(items: Seq<ClaimMapping>) -> Seq<ClaimLine> {
    Seq::new(items.len(), |i: int| claim_line(items[i]))
}

fn claim_row(m: &ClaimMapping) -> (r: ClaimMappingRow)
    ensures
        r@ == claim_line(*m),
{
    let required_scopes = match &m.required_scopes {
        Some(v) => text::clone_all(v),
        None => {
            let none: Vec<String> = Vec::new();
            proof {
                assert(text::texts(none@) =~= Seq::<Seq<char>>::empty());
            }
            none
        },
    };
    ClaimMappingRow {
        claim: m.claim.clone(),
        source: claim_source_label(&m.source),
        include_in_access_token: m.include_in_access_token,
        include_in_id_token: m.include_in_id_token,
        include_in_userinfo: m.include_in_userinfo,
        first_party_only: m.first_party_only,
        required_scopes,
    }
}

/// The claims page of a realm.
pub struct RealmClaimsTemplate {
    pub realm_id: String,
    pub realm_name: String,
    pub mappings: Vec<ClaimMappingRow>,
    pub chrome: web::Chrome,
}

/// Shows the claims that are configured for a realm, called `realm_name`.
pub fn admin_realm_claims(
    site: &web::Site,
    session: &web::UiSession,
    realm_id: u128,
    realm_name: Option<String>,
    mappings: &Option<Vec<ClaimMapping>>,
) -> (r: web::Reply<RealmClaimsTemplate>)
    ensures
        match realm_name {
            None => r.not_found("Realm not found"@),
            Some(name) => r is Page && {
                let p = r->Page_0;
                &&& p.realm_id@ == codec::hyphenated(realm_id)
                &&& p.realm_name@ == name@
                &&& text::views(p.mappings@) == match mappings {
                    Some(list) => claim_lines(list@),
                    None => Seq::empty(),
                }
                &&& p.chrome.is_admin_page(*site, *session, "realms"@)
                &&& p.chrome.flash is None
            },
        },
{
    let realm_name = match realm_name {
        None => return web::Reply::missing("Realm not found"),
        Some(name) => name,
    };
    let mut rows: Vec<ClaimMappingRow> = Vec::new();
    if let Some(list) = mappings {
        let mut i: usize = 0;
        while i < list.len()
            invariant
                i <= list.len(),
                rows.len() == i,
                forall|j: int| 0 <= j < i ==> (#[trigger] rows@[j])@ == claim_line(list@[j]),
            decreases list.len() - i,
        {
            rows.push(claim_row(&list[i]));
            i += 1;
        }
        proof {
            assert(text::views(rows@) =~= claim_lines(list@));
        }
    } else {
        proof {
            assert(text::views(rows@) =~= Seq::<ClaimLine>::empty());
        }
    }
    web::Reply::Page(
        RealmClaimsTemplate {
            realm_id: codec::uuid_text(realm_id),
            realm_name,
            mappings: rows,
            chrome: web::Chrome::admin(site, session, "realms"),
        },
    )
}

/// What is seen of a row is what it holds, each part under its own name.
pub proof fn law_rows_seen(a: ScopeRow, b: PermissionRow, c: ClaimMappingRow)
    ensures
        a@.0 == a.name@,
        a@.1 == a.description@,
        a@.2 == a.permissions@,
        b@.name == b.name@,
        b@.description == b.description@,
        b@.declared == b.declared,
        b@.seed_bundled == b.seed_bundled,
        b@.roles == text::texts(b.roles@),
        c@.claim == c.claim@,
        c@.source == c.source@,
        c@.include_in_access_token == c.include_in_access_token,
        c@.include_in_id_token == c.include_in_id_token,
        c@.include_in_userinfo == c.include_in_userinfo,
        c@.first_party_only == c.first_party_only,
        c@.required_scopes == text::texts(c.required_scopes@),
{
}

/// Part by part: how a claim is shown.
pub proof fn law_claim_line(m: ClaimMapping)
    ensures
        claim_line(m).claim == m.claim@,
        claim_line(m).source == source_label(m.source),
        claim_line(m).include_in_access_token == m.include_in_access_token,
        claim_line(m).include_in_id_token == m.include_in_id_token,
        claim_line(m).include_in_userinfo == m.include_in_userinfo,
        claim_line(m).first_party_only == m.first_party_only,
        claim_line(m).required_scopes == (match m.required_scopes {
                Some(v) => text::texts(v@),
                None => Seq::empty(),
            }),
{
}

/// One for each, in order: how bundles are shown.
pub proof fn law_scope_rows(bundles: Seq<ScopeBundle>, i: int)
    ensures
        scope_rows(bundles).len() == bundles.len(),
        0 <= i < bundles.len() ==> scope_rows(bundles)[i] == scope_row(bundles[i]),
{
}

/// One for each, in order: the names of configured permissions.
pub proof fn law_declared_names(declared: Seq<DeclaredPermission>, i: int)
    ensures
        declared_names(declared).len() == declared.len(),
        0 <= i < declared.len() ==> declared_names(declared)[i] == declared[i].name@,
{
}

/// One for each, in order: how permissions are shown.
pub proof fn law_permission_lines(
    declared: Seq<DeclaredPermission>,
    roles: Seq<access::Role>,
    names: Seq<NamedPermission>,
    i: int,
)
    ensures
        permission_lines(declared, roles, names).len() == names.len(),
        0 <= i < names.len() ==> permission_lines(declared, roles, names)[i] == permission_line(
            declared,
            roles,
            names[i].name@,
            text::opt_text(names[i].seed),
        ),
{
}

/// One for each, in order: how claims are shown.
pub proof fn law_claim_lines(items: Seq<ClaimMapping>, i: int)
    ensures
        claim_lines(items).len() == items.len(),
        0 <= i < items.len() ==> claim_lines(items)[i] == claim_line(items[i]),
{
}

/// The address of the access page names the realm, and carries the query that was
/// given, where there was one.
pub proof fn law_access_address(realm_name: Seq<char>, raw_query: Option<Seq<char>>)
    requires
        !realm_name.contains('?'),
    ensures
        text::has_prefix(
            access_address(realm_name, raw_query),
            "/ui/admin/realms/"@ + realm_name + "/rbac/debug"@,
        ),
        raw_query matches Some(q) ==> (q.len() > 0 ==> query::query_of(
            access_address(realm_name, raw_query),
        ) == Some(q)),
        raw_query is None || raw_query->0.len() == 0 ==> access_address(realm_name, raw_query)
            == "/ui/admin/realms/"@ + realm_name + "/rbac/debug"@,
{
    reveal_strlit("/ui/admin/realms/");
    reveal_strlit("/rbac/debug");
    reveal_strlit("?");
    let path = "/ui/admin/realms/"@ + realm_name + "/rbac/debug"@;
    let a = access_address(realm_name, raw_query);
    assert(a.subrange(0, path.len() as int) =~= path);
    assert(!path.contains('?')) by {
        if path.contains('?') {
            let i = choose|i: int| 0 <= i < path.len() && path[i] == '?';
            if 17 <= i < 17 + realm_name.len() {
                assert(realm_name[i - 17] == '?');
            }
        }
    }
    if raw_query is Some && raw_query->0.len() > 0 {
        let q = raw_query->0;
        assert(a =~= path + seq!['?'] + q);
        query::lemma_query_of(path, q);
    } else {
        assert(a =~= path);
    }
}

/// A prefix is cut off where it stands, and nothing else is.
pub proof fn law_without_prefix(s: Seq<char>, prefix: Seq<char>)
    ensures
        without_prefix(prefix + s, prefix) == s,
        !text::has_prefix(s, prefix) ==> without_prefix(s, prefix) == s,
{
    assert((prefix + s).subrange(0, prefix.len() as int) =~= prefix);
    assert((prefix + s).skip(prefix.len() as int) =~= s);
}

/// A user and an organization are found by their identifier, with or without the
/// word for what they are before it; nothing is no organization.
pub proof fn law_named(id: Seq<char>, id_of: spec_fn(Seq<char>) -> Option<u128>)
    ensures
        named_user("user_"@ + id, id_of) == id_of(id),
        !text::has_prefix(id, "user_"@) ==> named_user(id, id_of) == id_of(id),
        named_org("org_"@ + id, id_of) == id_of(id),
        id.len() > 0 && !text::has_prefix(id, "org_"@) ==> named_org(id, id_of) == id_of(id),
        named_org(Seq::empty(), id_of) is None,
{
    reveal_strlit("org_");
    law_without_prefix(id, "user_"@);
    law_without_prefix(id, "org_"@);
}

/// Access is resolved of the user that was named, in the organization and the
/// scope that were named; nothing is asked where no user was, and an unknown user
/// is refused.
pub proof fn law_asks_access(r: DebugQuery, q: RbacDebugQuery)
    requires
        asks_access(r, q),
    ensures
        r is Nothing <==> text::trimmed(q.user_id@).len() == 0,
        r is Invalid <==> text::trimmed(q.user_id@).len() > 0 && named_user(
            text::trimmed(q.user_id@),
            access::uuid_reading(),
        ) is None,
        r matches DebugQuery::Resolve(request) ==> {
            &&& named_user(text::trimmed(q.user_id@), access::uuid_reading()) == Some(
                request.user_id,
            )
            &&& request.org_id == named_org(text::trimmed(q.org_id@), access::uuid_reading())
            &&& request.scope is None <==> text::trimmed(q.scope@).len() == 0
            &&& request.scope matches Some(s) ==> s@ == text::trimmed(q.scope@)
        },
{
}

/// Where nothing is shown, there are no roles, no groups and no permissions.
pub proof fn law_shows_nothing(a: ResolvedAccess)
    ensures
        shows_nothing(a) <==> a.roles@.len() == 0 && a.groups@.len() == 0 && a.permissions@.len()
            == 0,
{
}

/// A scope is shown by name, with its description and its permissions in order.
pub proof fn law_scope_row(b: ScopeBundle)
    ensures
        scope_row(b).0 == b.name@,
        b.description matches Some(d) ==> scope_row(b).1 == d@,
        b.description is None ==> scope_row(b).1.len() == 0,
        scope_row(b).2 == text::joined(text::texts(b.permissions@), ", "@),
{
}

/// Of several declarations of one permission the last one describes it; it is
/// declared exactly where some declaration names it.
pub proof fn law_declared_description(
    declared: Seq<DeclaredPermission>,
    name: Seq<char>,
    more: DeclaredPermission,
)
    ensures
        declared_description(declared, name) is Some <==> exists|i: int|
            0 <= i < declared.len() && (#[trigger] declared[i]).name@ == name,
        more.name@ == name ==> declared_description(declared.push(more), name) == Some(
            access::text_or_empty(more.description),
        ),
        more.name@ != name ==> declared_description(declared.push(more), name)
            == declared_description(declared, name),
    decreases declared.len(),
{
    assert(declared.push(more).drop_last() =~= declared);
    if declared.len() > 0 {
        let rest = declared.drop_last();
        law_declared_description(rest, name, more);
        assert(declared[declared.len() - 1] == declared.last());
        if declared_description(rest, name) is Some {
            let i = choose|i: int| 0 <= i < rest.len() && (#[trigger] rest[i]).name@ == name;
            assert(declared[i].name@ == name);
        }
        if exists|i: int| 0 <= i < declared.len() && (#[trigger] declared[i]).name@ == name {
            let i = choose|i: int|
                0 <= i < declared.len() && (#[trigger] declared[i]).name@ == name;
            if i < rest.len() {
                assert(rest[i].name@ == name);
            }
        }
    }
}

/// The roles that grant a permission are exactly those that hold it, in their
/// order, each by its name.
pub proof fn law_granting(roles: Seq<access::Role>, name: Seq<char>)
    ensures
        granting(roles, name) == roles.filter(
            |r: access::Role| text::texts(r.permissions@).contains(name),
        ).map_values(
            |r: access::Role| r.name@,
        ),
    decreases roles.len(),
{
    let keep = |r: access::Role| text::texts(r.permissions@).contains(name);
    let row = |r: access::Role| r.name@;
    reveal(Seq::filter);
    if roles.len() > 0 {
        law_granting(roles.drop_last(), name);
        let before = roles.drop_last().filter(keep);
        if keep(roles.last()) {
            assert(before.push(roles.last()).map_values(row) =~= before.map_values(row).push(
                row(roles.last()),
            ));
        }
    } else {
        assert(roles.filter(keep).map_values(row) =~= Seq::<Seq<char>>::empty());
    }
}

/// A permission is shown with its own description, else with that of the bundle,
/// and with the roles that grant it.
pub proof fn law_permission_line(
    declared: Seq<DeclaredPermission>,
    roles: Seq<access::Role>,
    name: Seq<char>,
    seed: Option<Seq<char>>,
)
    ensures
        ({
            let line = permission_line(declared, roles, name, seed);
            let own = declared_description(declared, name);
            &&& line.name == name
            &&& line.declared <==> own is Some
            &&& line.seed_bundled <==> seed is Some
            &&& own matches Some(d) ==> (d.len() > 0 ==> line.description == d)
            &&& (own is None || own->0.len() == 0) ==> (seed matches Some(d) ==> line.description
                == d)
            &&& (own is None || own->0.len() == 0) && seed is None ==> line.description.len() == 0
            &&& line.roles == order::sorted_set(granting(roles, name))
        }),
{
}

/// Each source of a claim is told in its own words.
pub proof fn law_source_label(source: ClaimSource)
    ensures
        source is RolesFromAssignments ==> source_label(source) == "roles_from_assignments"@,
        source is GroupsFromMemberships ==> source_label(source) == "groups_from_memberships"@,
        source is EffectivePermissions ==> source_label(source) == "effective_permissions"@,
        source is OrgContext ==> source_label(source) == "org_context"@,
        source matches ClaimSource::CanonicalUserField { field } ==> source_label(source)
            == text::lowered("user."@ + field@),
        source matches ClaimSource::UserAttribute { attribute } ==> source_label(source)
            == "attribute:"@ + attribute@,
        source matches ClaimSource::RoleSubset { prefix } ==> source_label(source)
            == "role_subset:"@ + prefix@,
        source matches ClaimSource::Constant { value } ==> source_label(source) == "constant:"@
            + value@,
        source is Omit ==> source_label(source) == "omit"@,
{
}

/// The claims that are shown are written as they are: the text of the preview is
/// that of an object in which the roles stand under "roles".
pub proof fn law_preview_roles(user_id: u128, realm_id: u128, a: ResolvedAccess, b: ResolvedAccess)
    requires
        preview_claims(Some(user_id), realm_id, Ok(a)) == preview_claims(
            Some(user_id),
            realm_id,
            Ok(b),
        ),
    ensures
        text::texts(a.roles@) == text::texts(b.roles@),
        text::texts(a.groups@) == text::texts(b.groups@),
        text::texts(a.permissions@) == text::texts(b.permissions@),
{
    law_preview_claims(Some(user_id), realm_id, Ok(a));
    law_preview_claims(Some(user_id), realm_id, Ok(b));
}

} // verus!
