//! The signed-in user's accounts at external identity providers.

use crate::codec;
use crate::text;
use crate::web;
use vstd::prelude::*;
use vstd::string::*;

verus! {

/// A linked account as the engine knows it.
pub struct LinkedIdentity {
    pub idp_id: u128,
    /// How the provider is called, where it is known.
    pub idp_name: Option<String>,
    pub external_sub: String,
}

/// A linked account on the page.
pub struct LinkedRow {
    pub idp_id: String,
    pub display_name: String,
    pub external_sub: String,
}

/// A row without its representation.
#[verifier::ext_equal]
pub struct LinkedLine {
    pub idp_id: Seq<char>,
    pub display_name: Seq<char>,
    pub external_sub: Seq<char>,
}

impl View for LinkedRow {
    type V = LinkedLine;

    open spec fn view(&self) -> LinkedLine {
        LinkedLine {
            idp_id: self.idp_id@,
            display_name: self.display_name@,
            external_sub: self.external_sub@,
        }
    }
}

/// The row of a linked account.
pub open spec fn linked_line(l: LinkedIdentity) -> LinkedLine {
    LinkedLine {
        idp_id: codec::hyphenated(l.idp_id),
        display_name: match l.idp_name {
            Some(name) => name@,
            None => "external IdP"@,
        },
        external_sub: l.external_sub@,
    }
}

/// The rows of the linked accounts that the engine listed; none where it
/// failed.
pub open spec fn linked_lines(listed: Result<Vec<LinkedIdentity>, web::EngineError>) -> Seq<
    LinkedLine,
> {
    match listed {
        Ok(items) => Seq::new(items@.len(), |i: int| linked_line(items@[i])),
        Err(_) => Seq::empty(),
    }
}

/// The page of linked accounts.
pub struct LinkedAccountsPage {
    pub linked: Vec<LinkedRow>,
    pub chrome: web::Chrome,
}

/// Shows the linked accounts.
pub fn linked_accounts_index(
    site: &web::Site,
    session: &web::UiSession,
    is_admin: bool,
    listed: &Result<Vec<LinkedIdentity>, web::EngineError>,
) -> (r: web::Reply<LinkedAccountsPage>)
    ensures
        r is Page && text::views(r->Page_0.linked@) == linked_lines(*listed)
            && r->Page_0.chrome.is_account_page(*site, *session, "account"@, is_admin)
            && r->Page_0.chrome.flash is None,
{
    let mut linked: Vec<LinkedRow> = Vec::new();
    if let Ok(items) = listed {
        let mut i: usize = 0;
        while i < items.len()
            invariant
                i <= items.len(),
                linked.len() == i,
                forall|j: int| 0 <= j < i ==> (#[trigger] linked@[j])@ == linked_line(items@[j]),
            decreases items.len() - i,
        {
            let l = &items[i];
            let display_name = match &l.idp_name {
                Some(name) => name.clone(),
                None => "external IdP".to_owned(),
            };
            linked.push(
                LinkedRow {
                    idp_id: codec::uuid_text(l.idp_id),
                    display_name,
                    external_sub: l.external_sub.clone(),
                },
            );
            i += 1;
        }
    }
    proof {
        assert(text::views(linked@) =~= linked_lines(*listed));
    }
    web::Reply::Page(
        LinkedAccountsPage {
            linked,
            chrome: web::Chrome::new(site, session, "account", is_admin, true, None),
        },
    )
}

/// A form that holds nothing but the CSRF token.
pub struct CsrfOnlyForm {
    pub csrf: String,
}

/// Reads which account is to be unlinked.
pub fn unlink_request(csrf_ok: bool, idp_id: &str) -> (r: Result<u128, web::Reply<()>>)
    ensures
        web::names_one(r, csrf_ok, idp_id@, "Linked account not found"@),
{
    web::require_one(csrf_ok, idp_id, "Linked account not found")
}

/// An unlinking to log: where it happened, of which provider, for which user,
/// and by whom.
pub struct Unlinking {
    pub realm_id: u128,
    pub idp_id: u128,
    pub user_id: u128,
    pub via: String,
}

/// Answers after the engine tried to unlink the account, with what is to be
/// logged.
pub fn unlink(session: &web::UiSession, idp_id: u128, unlinked: Result<(), web::EngineError>) -> (r:
    (web::Reply<()>, Option<Unlinking>))
    ensures
        match unlinked {
            Ok(_) => {
                &&& r.0.redirects("/ui/account/linked-accounts"@)
                &&& r.1 is Some
                &&& r.1->0.realm_id == session.realm_id
                &&& r.1->0.idp_id == idp_id
                &&& r.1->0.user_id == session.user_id
                &&& r.1->0.via@ == "self"@
            },
            Err(e) => r.1 is None && if e.kind is FederationNotLinked {
                r.0.not_found("Linked account not found"@)
            } else {
                r.0 is ServerError
            },
        },
{
    match unlinked {
        Ok(_) => (
            web::Reply::redirect("/ui/account/linked-accounts"),
            Some(
                Unlinking {
                    realm_id: session.realm_id,
                    idp_id,
                    user_id: session.user_id,
                    via: "self".to_owned(),
                },
            ),
        ),
        Err(e) => match e.kind {
            web::ErrorKind::FederationNotLinked => (
                web::Reply::missing("Linked account not found"),
                None,
            ),
            _ => (web::Reply::ServerError, None),
        },
    }
}

/// What is seen of a row is what it holds, each part under its own name.
pub proof fn law_rows_seen(a: LinkedRow)
    ensures
        a@.idp_id == a.idp_id@,
        a@.display_name == a.display_name@,
        a@.external_sub == a.external_sub@,
{
}

/// Part by part: the row of a linked account.
pub proof fn law_linked_line(l: LinkedIdentity)
    ensures
        linked_line(l).idp_id == codec::hyphenated(l.idp_id),
        linked_line(l).display_name == (match l.idp_name {
                Some(name) => name@,
                None => "external IdP"@,
            }),
        linked_line(l).external_sub == l.external_sub@,
{
}

/// One line for each linked account, in order; none where they could not be read.
pub proof fn law_linked_lines(listed: Result<Vec<LinkedIdentity>, web::EngineError>, i: int)
    ensures
        listed is Err ==> linked_lines(listed).len() == 0,
        listed matches Ok(items) ==> linked_lines(listed).len() == items@.len(),
        listed matches Ok(items) ==> (0 <= i < items@.len() ==> {
            let line = linked_lines(listed)[i];
            &&& line.idp_id == codec::hyphenated(items@[i].idp_id)
            &&& items@[i].idp_name matches Some(name) ==> line.display_name == name@
            &&& items@[i].idp_name is None ==> line.display_name == "external IdP"@
            &&& line.external_sub == items@[i].external_sub@
        }),
{
}

} // verus!
