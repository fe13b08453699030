//! The list of identity providers.

use crate::web;
use vstd::prelude::*;
use vstd::string::*;

verus! {

/// An identity provider as the engine knows it.
pub struct IdpConfig {
    /// Its identifier, as the engine writes it.
    pub id: String,
    pub name: String,
    pub display_name: String,
    /// How its kind is called.
    pub kind: String,
    pub issuer: String,
}

/// An identity provider in the list.
pub struct IdpRow {
    pub id: String,
    pub name: String,
    pub display_name: String,
    pub kind: String,
    pub issuer: String,
}

/// The row of a provider.
pub open spec fn idp_row(c: IdpConfig) -> IdpRow {
    IdpRow {
        id: c.id,
        name: c.name,
        display_name: c.display_name,
        kind: c.kind,
        issuer: c.issuer,
    }
}

impl From<IdpConfig> for IdpRow {
    fn from(c: IdpConfig) -> (r: IdpRow) {
        IdpRow {
            id: c.id,
            name: c.name,
            display_name: c.display_name,
            kind: c.kind,
            issuer: c.issuer,
        }
    }
}

impl vstd::std_specs::convert::FromSpecImpl<IdpConfig> for IdpRow {
    open spec fn obeys_from_spec() -> bool {
        true
    }

    open spec fn from_spec(c: IdpConfig) -> IdpRow {
        idp_row(c)
    }
}

/// The rows of providers.
pub open spec fn idp_rows(items: Seq<IdpConfig>) -> Seq<IdpRow> {
    Seq::new(items.len(), |i: int| idp_row(items[i]))
}

/// The list of the identity providers of a realm.
pub struct IdpListTemplate {
    pub providers: Vec<IdpRow>,
    pub realm_name: String,
    pub active_tab: String,
    pub chrome: web::Chrome,
}

/// Shows the identity providers of a realm.
pub fn admin_idp_list(
    site: &web::Site,
    session: &web::UiSession,
    target: &web::TargetRealm,
    listed: Result<Vec<IdpConfig>, web::EngineError>,
) -> (r: web::Reply<IdpListTemplate>)
    ensures
        listed is Err ==> r is ServerError,
        listed matches Ok(items) ==> r is Page && {
            let p = r->Page_0;
            &&& p.providers@ == idp_rows(items@)
            &&& p.realm_name@ == target.name@
            &&& p.active_tab@ == "identity_providers"@
            &&& p.chrome.is_admin_page(*site, *session, "realm-workspace"@)
            &&& p.chrome.flash is None
        },
{
    let items = match listed {
        Err(_) => return web::Reply::ServerError,
        Ok(items) => items,
    };
    let ghost all = items@;
    let mut rest = items;
    let mut providers: Vec<IdpRow> = Vec::new();
    let ghost mut n: int = 0;
    proof {
        assert(all.skip(0) =~= all);
    }
    while rest.len() > 0
        invariant
            0 <= n <= all.len(),
            rest@ == all.skip(n),
            providers@ == idp_rows(all.take(n)),
        decreases rest.len(),
    {
        let c = rest.remove(0);
        proof {
            assert(rest@ =~= all.skip(n + 1));
            assert(idp_rows(all.take(n + 1)) =~= idp_rows(all.take(n)).push(idp_row(c)));
            n = n + 1;
        }
        providers.push(IdpRow::from(c));
    }
    proof {
        assert(all.take(n) =~= all);
    }
    web::Reply::Page(
        IdpListTemplate {
            providers,
            realm_name: target.name.clone(),
            active_tab: "identity_providers".to_owned(),
            chrome: web::Chrome::admin(site, session, "realm-workspace"),
        },
    )
}

/// Part by part: the row of a provider.
pub proof fn law_idp_row(c: IdpConfig)
    ensures
        idp_row(c).id == c.id,
        idp_row(c).name == c.name,
        idp_row(c).display_name == c.display_name,
        idp_row(c).kind == c.kind,
        idp_row(c).issuer == c.issuer,
{
}

/// One for each, in order: the rows of providers.
pub proof fn law_idp_rows(items: Seq<IdpConfig>, i: int)
    ensures
        idp_rows(items).len() == items.len(),
        0 <= i < items.len() ==> idp_rows(items)[i] == idp_row(items[i]),
{
}

} // verus!
