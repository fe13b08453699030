//! Reading raw query strings.

use crate::text;
use vstd::prelude::*;
use vstd::string::*;

verus! {

/// The pieces of a raw query string.
pub open spec fn params_of(q: Seq<char>) -> Seq<Seq<char>> {
    text::split_pieces(q, text::Separator::Char('&'))
}

/// What stands behind `prefix` in the first piece that starts with it.
pub open spec fn value_after(pieces: Seq<Seq<char>>, prefix: Seq<char>) -> Option<Seq<char>>
    decreases pieces.len(),
{
    if pieces.len() == 0 {
        None
    } else if text::has_prefix(pieces[0], prefix) {
        Some(pieces[0].skip(prefix.len() as int))
    } else {
        value_after(pieces.drop_first(), prefix)
    }
}

/// The query of an address: what stands behind its first `?`.
pub open spec fn query_of(address: Seq<char>) -> Option<Seq<char>>
    decreases address.len(),
{
    if address.len() == 0 {
        None
    } else if address[0] == '?' {
        Some(address.skip(1))
    } else {
        query_of(address.skip(1))
    }
}

/// What is put behind the first `?` of an address is its query.
pub proof fn lemma_query_of(path: Seq<char>, query: Seq<char>)
    requires
        !path.contains('?'),
    ensures
        query_of(path + seq!['?'] + query) == Some(query),
    decreases path.len(),
{
    let address = path + seq!['?'] + query;
    if path.len() == 0 {
        assert(address.skip(1) =~= query);
    } else {
        let rest = path.skip(1);
        assert(path.contains(path[0]));
        assert(!rest.contains('?')) by {
            if rest.contains('?') {
                let i = choose|i: int| 0 <= i < rest.len() && rest[i] == '?';
                assert(path[i + 1] == '?');
            }
        }
        lemma_query_of(rest, query);
        assert(address.skip(1) =~= rest + seq!['?'] + query);
    }
}

/// A value without `&` is read back from the query that holds it alone.
pub proof fn law_value_round_trip(prefix: Seq<char>, value: Seq<char>)
    requires
        !prefix.contains('&'),
        !value.contains('&'),
    ensures
        value_after(params_of(prefix + value), prefix) == Some(value),
{
    let q = prefix + value;
    assert(!q.contains('&')) by {
        if q.contains('&') {
            let i = choose|i: int| 0 <= i < q.len() && q[i] == '&';
            if i < prefix.len() {
                assert(prefix[i] == '&');
            } else {
                assert(value[i - prefix.len()] == '&');
            }
        }
    }
    text::lemma_first_piece(q, '&', Seq::empty());
    assert(params_of(q)[0] == q);
    assert(q.subrange(0, prefix.len() as int) =~= prefix);
    assert(q.skip(prefix.len() as int) =~= value);
}

/// Finds what stands behind `prefix` in the first piece that starts with it.
pub fn find_value(pieces: &Vec<String>, prefix: &str) -> (r: Option<String>)
    ensures
        text::opt_text(r) == value_after(text::texts(pieces@), prefix@),
{
    let ghost all = text::texts(pieces@);
    let mut i: usize = 0;
    proof {
        assert(all.skip(0) =~= all);
    }
    while i < pieces.len()
        invariant
            all == text::texts(pieces@),
            i <= pieces.len(),
            value_after(all, prefix@) == value_after(all.skip(i as int), prefix@),
        decreases pieces.len() - i,
    {
        proof {
            assert(all.skip(i as int)[0] == pieces@[i as int]@);
            assert(all.skip(i as int).drop_first() =~= all.skip(i + 1));
        }
        if let Some(value) = text::strip_prefix(pieces[i].as_str(), prefix) {
            return Some(value);
        }
        i += 1;
    }
    None
}

/// The realm that a query names, as a query of its own: the first of its pieces
/// that is `realm=` with a name or `admin_target=system`.
pub open spec fn realm_token(pieces: Seq<Seq<char>>) -> Seq<char>
    decreases pieces.len(),
{
    if pieces.len() == 0 {
        Seq::empty()
    } else {
        let p = pieces[0];
        let name = p.skip("realm="@.len() as int);
        if text::has_prefix(p, "realm="@) && name.len() > 0 {
            "?realm="@ + name
        } else if p == "admin_target=system"@ {
            "?admin_target=system"@
        } else {
            realm_token(pieces.drop_first())
        }
    }
}

/// Extracts `?realm=<name>` or `?admin_target=system` from a raw query string;
/// empty where it holds neither.
pub fn realm_query_string(raw: &Option<String>) -> (r: String)
    ensures
        r@ == match raw {
            Some(q) => realm_token(params_of(q@)),
            None => Seq::empty(),
        },
{
    let q = match raw {
        Some(q) => q,
        None => {
            return String::new();
        },
    };
    let pieces = text::split(q.as_str(), text::Separator::Char('&'));
    let ghost all = text::texts(pieces@);
    let mut i: usize = 0;
    proof {
        assert(all.skip(0) =~= all);
    }
    while i < pieces.len()
        invariant
            raw matches Some(q) && params_of(q@) == all,
            all == text::texts(pieces@),
            i <= pieces.len(),
            realm_token(all) == realm_token(all.skip(i as int)),
        decreases pieces.len() - i,
    {
        proof {
            assert(all.skip(i as int)[0] == pieces@[i as int]@);
            assert(all.skip(i as int).drop_first() =~= all.skip(i + 1));
        }
        if let Some(name) = text::strip_prefix(pieces[i].as_str(), "realm=") {
            if !name.as_str().is_empty() {
                return "?realm=".to_owned().concat(name.as_str());
            }
        }
        if text::same(pieces[i].as_str(), "admin_target=system") {
            return "?admin_target=system".to_owned();
        }
        i += 1;
    }
    String::new()
}

/// What stands behind a prefix is what the first piece with that prefix holds;
/// nothing does where no piece starts with it.
pub proof fn law_value_after(pieces: Seq<Seq<char>>, prefix: Seq<char>, k: int)
    ensures
        0 <= k < pieces.len() && text::has_prefix(pieces[k], prefix) && (forall|j: int|
            0 <= j < k ==> !text::has_prefix(#[trigger] pieces[j], prefix)) ==> value_after(
            pieces,
            prefix,
        ) == Some(pieces[k].skip(prefix.len() as int)),
        value_after(pieces, prefix) is None <==> forall|j: int|
            0 <= j < pieces.len() ==> !text::has_prefix(#[trigger] pieces[j], prefix),
    decreases pieces.len(),
{
    if pieces.len() > 0 && !text::has_prefix(pieces[0], prefix) {
        let rest = pieces.drop_first();
        law_value_after(rest, prefix, k - 1);
        assert forall|j: int| 0 <= j < rest.len() implies #[trigger] rest[j] == pieces[j + 1] by {}
        if value_after(rest, prefix) is None {
            assert forall|j: int| 0 <= j < pieces.len() implies !text::has_prefix(
                #[trigger] pieces[j],
                prefix,
            ) by {
                if j > 0 {
                    assert(rest[j - 1] == pieces[j]);
                }
            }
        }
        if 0 < k < pieces.len() {
            assert(rest[k - 1] == pieces[k]);
        }
    }
}

/// Pieces that are joined to a query are its pieces.
pub proof fn lemma_params(pieces: Seq<Seq<char>>)
    requires
        pieces.len() > 0,
        forall|k: int| 0 <= k < pieces.len() ==> !(#[trigger] pieces[k]).contains('&'),
    ensures
        params_of(text::joined(pieces, seq!['&'])) == pieces,
{
    let sep = text::Separator::Char('&');
    assert forall|k: int, i: int|
        0 <= k < pieces.len() && 0 <= i < pieces[k].len() implies !text::separates(
        sep,
        #[trigger] pieces[k][i],
    ) by {
        assert(pieces[k].contains(pieces[k][i]));
    }
    text::lemma_split_joined(pieces, '&', sep);
}

/// Whether a piece names a realm.
pub open spec fn names_realm(p: Seq<char>) -> bool {
    (text::has_prefix(p, "realm="@) && p != "realm="@) || p == "admin_target=system"@
}

/// The realm that a query names is carried on as it was named: a query that holds
/// such a piece and none before it leads on with that piece; one without it, with
/// nothing.
pub proof fn law_realm_token(pieces: Seq<Seq<char>>, k: int)
    ensures
        0 <= k < pieces.len() && names_realm(pieces[k]) && (forall|j: int|
            0 <= j < k ==> !names_realm(#[trigger] pieces[j])) ==> realm_token(pieces) == seq!['?']
            + pieces[k],
        (forall|j: int| 0 <= j < pieces.len() ==> !names_realm(#[trigger] pieces[j]))
            ==> realm_token(pieces).len() == 0,
    decreases pieces.len(),
{
    reveal_strlit("realm=");
    reveal_strlit("?realm=");
    reveal_strlit("admin_target=system");
    reveal_strlit("?admin_target=system");
    if pieces.len() > 0 {
        let p = pieces[0];
        let rest = pieces.drop_first();
        law_realm_token(rest, k - 1);
        assert forall|j: int| 0 <= j < rest.len() implies #[trigger] rest[j] == pieces[j + 1] by {}
        if text::has_prefix(p, "realm="@) {
            assert(p.subrange(0, 6) == "realm="@);
            assert(p =~= "realm="@ + p.skip(6));
            assert("?realm="@ + p.skip(6) =~= seq!['?'] + p);
            if p.skip(6).len() == 0 {
                assert(p =~= "realm="@);
            }
            assert(p[0] == "realm="@[0]);
        }
        assert("?admin_target=system"@ =~= seq!['?'] + "admin_target=system"@);
        if 0 < k < pieces.len() {
            assert(rest[k - 1] == pieces[k]);
            if forall|j: int| 0 <= j < k ==> !names_realm(#[trigger] pieces[j]) {
                assert(!names_realm(pieces[0]));
            }
        }
        if forall|j: int| 0 <= j < pieces.len() ==> !names_realm(#[trigger] pieces[j]) {
            assert(!names_realm(pieces[0]));
        }
    }
}

} // verus!
