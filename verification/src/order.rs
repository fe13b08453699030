//! Sorting and sets of texts.

use crate::text;
use vstd::multiset::*;
use vstd::prelude::*;
use vstd::string::*;

verus! {

// ---------------------------------------------------------------------------
// Stable sorting
// ---------------------------------------------------------------------------

/// An order on the values of a type, by which they are sorted.
pub trait Order<T>: Sized {
    /// Whether the first value may stand before the second.
    spec fn may_precede(a: T, b: T) -> bool;

    /// Compares two values.
    fn precedes(a: &T, b: &T) -> (r: bool)
        ensures
            r == Self::may_precede(*a, *b),
    ;
}

/// The sorted sequence with `x` put in behind everything that may precede it.
pub open spec fn inserted<T>(s: Seq<T>, x: T, le: spec_fn(T, T) -> bool) -> Seq<T>
    decreases s.len(),
{
    if s.len() == 0 || le(s.last(), x) {
        s.push(x)
    } else {
        inserted(s.drop_last(), x, le).push(s.last())
    }
}

/// The sequence in order; what is ranked alike keeps its order.
pub open spec fn sorted<T>(s: Seq<T>, le: spec_fn(T, T) -> bool) -> Seq<T>
    decreases s.len(),
{
    if s.len() == 0 {
        s
    } else {
        inserted(sorted(s.drop_last(), le), s.last(), le)
    }
}

/// The order that `O` stands for.
pub open spec fn order_of<T, O: Order<T>>() -> spec_fn(T, T) -> bool {
    |a: T, b: T| O::may_precede(a, b)
}

proof fn lemma_inserted_split<T>(s: Seq<T>, k: int, x: T, le: spec_fn(T, T) -> bool)
    requires
        0 <= k <= s.len(),
        k == 0 || le(s[k - 1], x),
        forall|j: int| k <= j < s.len() ==> !le(#[trigger] s[j], x),
    ensures
        inserted(s, x, le) == s.insert(k, x),
    decreases s.len(),
{
    if s.len() == k {
        assert(s.insert(k, x) =~= s.push(x));
    } else {
        lemma_inserted_split(s.drop_last(), k, x, le);
        assert(s.insert(k, x) =~= s.drop_last().insert(k, x).push(s.last()));
    }
}

/// Sorts a vector; what is ranked alike keeps its order.
pub fn sort<T, O: Order<T>>(v: Vec<T>) -> (r: Vec<T>)
    ensures
        r@ == sorted(v@, order_of::<T, O>()),
{
    let ghost all = v@;
    let ghost le = order_of::<T, O>();
    let mut rest = v;
    let mut out: Vec<T> = Vec::new();
    let ghost mut n: int = 0;
    proof {
        assert(all.take(0) =~= Seq::<T>::empty());
        assert(all.skip(0) =~= all);
    }
    while rest.len() > 0
        invariant
            0 <= n <= all.len(),
            rest@ == all.skip(n),
            le == order_of::<T, O>(),
            out@ == sorted(all.take(n), le),
        decreases rest.len(),
    {
        let x = rest.remove(0);
        proof {
            assert(x == all[n]);
            assert(rest@ =~= all.skip(n + 1));
            assert(all.take(n + 1).drop_last() =~= all.take(n));
        }
        let mut k: usize = out.len();
        while k > 0 && !O::precedes(&out[k - 1], &x)
            invariant
                k <= out.len(),
                le == order_of::<T, O>(),
                forall|j: int| k <= j < out.len() ==> !le(#[trigger] out@[j], x),
            decreases k,
        {
            k -= 1;
        }
        proof {
            lemma_inserted_split(out@, k as int, x, le);
            n = n + 1;
        }
        out.insert(k, x);
    }
    proof {
        assert(all.take(n) =~= all);
    }
    out
}

/// Whether `le` ranks any two values and chains.
pub open spec fn is_ranking<T>(le: spec_fn(T, T) -> bool) -> bool {
    &&& forall|a: T, b: T| #[trigger] le(a, b) || le(b, a)
    &&& forall|a: T, b: T, c: T| #[trigger] le(a, b) && #[trigger] le(b, c) ==> le(a, c)
}

/// Whether every value may precede those behind it.
pub open spec fn in_order<T>(s: Seq<T>, le: spec_fn(T, T) -> bool) -> bool {
    forall|i: int, j: int| 0 <= i < j < s.len() ==> le(#[trigger] s[i], #[trigger] s[j])
}

proof fn lemma_inserted<T>(s: Seq<T>, x: T, le: spec_fn(T, T) -> bool)
    requires
        is_ranking(le),
        in_order(s, le),
    ensures
        in_order(inserted(s, x, le), le),
        inserted(s, x, le).to_multiset() == s.to_multiset().insert(x),
    decreases s.len(),
{
    broadcast use vstd::seq_lib::group_to_multiset_ensures;

    if s.len() == 0 || le(s.last(), x) {
        assert forall|i: int, j: int| 0 <= i < j < s.push(x).len() implies le(
            #[trigger] s.push(x)[i],
            #[trigger] s.push(x)[j],
        ) by {
            if j == s.len() && i < s.len() - 1 {
                assert(le(s[i], s.last()));
            }
        }
    } else {
        let t = s.drop_last();
        lemma_inserted(t, x, le);
        let u = inserted(t, x, le);
        assert(s =~= t.push(s.last()));
        assert(le(x, s.last()));
        assert forall|i: int, j: int| 0 <= i < j < u.push(s.last()).len() implies le(
            #[trigger] u.push(s.last())[i],
            #[trigger] u.push(s.last())[j],
        ) by {
            if j == u.len() {
                let e = u[i];
                assert(u.to_multiset().count(e) > 0);
                if e != x {
                    assert(t.to_multiset().count(e) > 0);
                    assert(t.contains(e));
                    let k = choose|k: int| 0 <= k < t.len() && t[k] == e;
                    assert(le(s[k], s[s.len() - 1]));
                }
            }
        }
        assert(u.push(s.last()).to_multiset() =~= s.to_multiset().insert(x));
    }
}

/// Sorting puts a sequence in order and neither adds nor loses anything.
pub proof fn law_sorted<T>(s: Seq<T>, le: spec_fn(T, T) -> bool)
    requires
        is_ranking(le),
    ensures
        in_order(sorted(s, le), le),
        sorted(s, le).to_multiset() == s.to_multiset(),
    decreases s.len(),
{
    broadcast use vstd::seq_lib::group_to_multiset_ensures;

    if s.len() > 0 {
        law_sorted(s.drop_last(), le);
        lemma_inserted(sorted(s.drop_last(), le), s.last(), le);
        assert(s =~= s.drop_last().push(s.last()));
    }
}

proof fn lemma_inserted_map<T, U>(
    s: Seq<T>,
    x: T,
    le: spec_fn(T, T) -> bool,
    f: spec_fn(T) -> U,
    le2: spec_fn(U, U) -> bool,
)
    requires
        forall|a: T, b: T| #[trigger] le(a, b) == le2(f(a), f(b)),
    ensures
        inserted(s, x, le).map_values(f) == inserted(s.map_values(f), f(x), le2),
    decreases s.len(),
{
    let t = s.map_values(f);
    if s.len() == 0 || le(s.last(), x) {
        assert(t.len() == 0 || t.last() == f(s.last()));
        assert(s.push(x).map_values(f) =~= t.push(f(x)));
    } else {
        lemma_inserted_map(s.drop_last(), x, le, f, le2);
        assert(le(s.last(), x) == le2(f(s.last()), f(x)));
        assert(t.drop_last() =~= s.drop_last().map_values(f));
        assert(inserted(s.drop_last(), x, le).push(s.last()).map_values(f) =~= inserted(
            s.drop_last(),
            x,
            le,
        ).map_values(f).push(f(s.last())));
    }
}

/// Sorting commutes with a reading of the values that carries their order.
pub proof fn lemma_sorted_map<T, U>(
    s: Seq<T>,
    le: spec_fn(T, T) -> bool,
    f: spec_fn(T) -> U,
    le2: spec_fn(U, U) -> bool,
)
    requires
        forall|a: T, b: T| #[trigger] le(a, b) == le2(f(a), f(b)),
    ensures
        sorted(s, le).map_values(f) == sorted(s.map_values(f), le2),
    decreases s.len(),
{
    if s.len() > 0 {
        lemma_sorted_map(s.drop_last(), le, f, le2);
        lemma_inserted_map(sorted(s.drop_last(), le), s.last(), le, f, le2);
        assert(s.map_values(f).drop_last() =~= s.drop_last().map_values(f));
        assert(s.map_values(f).last() == f(s.last()));
    } else {
        assert(sorted(s, le).map_values(f) =~= sorted(s.map_values(f), le2));
    }
}

// ---------------------------------------------------------------------------
// Texts in order
// ---------------------------------------------------------------------------

/// The order of texts.
pub open spec fn text_order() -> spec_fn(Seq<char>, Seq<char>) -> bool {
    |a: Seq<char>, b: Seq<char>| text::text_le(a, b)
}

/// The order of texts ranks them.
pub proof fn lemma_text_order()
    ensures
        is_ranking(text_order()),
{
    let le = text_order();
    assert forall|a: Seq<char>, b: Seq<char>| #[trigger] le(a, b) || le(b, a) by {
        text::lemma_text_le_total(a, b);
    }
    assert forall|a: Seq<char>, b: Seq<char>, c: Seq<char>| #[trigger]
        le(a, b) && #[trigger] le(b, c) implies le(a, c) by {
        text::lemma_text_le_transitive(a, b, c);
    }
}

/// Strings by their text.
pub struct ByText;

impl Order<String> for ByText {
    open spec fn may_precede(a: String, b: String) -> bool {
        text::text_le(a@, b@)
    }

    fn precedes(a: &String, b: &String) -> (r: bool) {
        text::le(a.as_str(), b.as_str())
    }
}

/// The text of a string, as a reading of its value.
pub open spec fn text_reading() -> spec_fn(String) -> Seq<char> {
    |s: String| s@
}

/// Sorts strings by their text.
pub fn sort_strings(v: Vec<String>) -> (r: Vec<String>)
    ensures
        text::texts(r@) == sorted(text::texts(v@), text_order()),
{
    let ghost given = v@;
    let r = sort::<String, ByText>(v);
    proof {
        let f = text_reading();
        lemma_sorted_map(given, order_of::<String, ByText>(), f, text_order());
        assert(text::texts(given) =~= given.map_values(f));
        assert(text::texts(r@) =~= r@.map_values(f));
    }
    r
}

/// The sequence without values that repeat the one before.
pub open spec fn deduped<T>(s: Seq<T>) -> Seq<T>
    decreases s.len(),
{
    if s.len() <= 1 {
        s
    } else {
        let before = deduped(s.drop_last());
        if s.last() == s[s.len() - 2] {
            before
        } else {
            before.push(s.last())
        }
    }
}

/// Drops strings that repeat the one before.
pub fn dedup(v: &Vec<String>) -> (r: Vec<String>)
    ensures
        text::texts(r@) == deduped(text::texts(v@)),
{
    broadcast use text::lemma_texts_push;

    let ghost all = text::texts(v@);
    let mut r: Vec<String> = Vec::new();
    let mut i: usize = 0;
    proof {
        assert(text::texts(r@) =~= deduped(all.take(0)));
    }
    while i < v.len()
        invariant
            all == text::texts(v@),
            i <= v.len(),
            text::texts(r@) == deduped(all.take(i as int)),
        decreases v.len() - i,
    {
        let ghost next = all.take(i + 1);
        proof {
            assert(next.drop_last() =~= all.take(i as int));
            if i == 0 {
                assert(next =~= all.take(0).push(v@[0]@));
            } else {
                assert(next[next.len() - 2] == v@[i - 1]@);
            }
        }
        if i == 0 || v[i] != v[i - 1] {
            r.push(v[i].clone());
        }
        proof {
            assert(text::texts(r@) =~= deduped(next));
        }
        i += 1;
    }
    proof {
        assert(all.take(v@.len() as int) =~= all);
    }
    r
}

// ---------------------------------------------------------------------------
// Sets of texts
// ---------------------------------------------------------------------------

/// The members of a sequence, each once, in order.
pub open spec fn sorted_set(s: Seq<Seq<char>>) -> Seq<Seq<char>> {
    deduped(sorted(s, text_order()))
}

/// Whether each text comes strictly before those behind it.
pub open spec fn ascending(s: Seq<Seq<char>>) -> bool {
    forall|i: int, j: int|
        0 <= i < j < s.len() ==> text::text_le(#[trigger] s[i], #[trigger] s[j]) && s[i] != s[j]
}

proof fn lemma_deduped(s: Seq<Seq<char>>)
    requires
        in_order(s, text_order()),
    ensures
        ascending(deduped(s)),
        forall|x: Seq<char>| #[trigger] deduped(s).contains(x) <==> s.contains(x),
        s.len() > 0 ==> deduped(s).len() > 0 && deduped(s).last() == s.last(),
    decreases s.len(),
{
    if s.len() > 1 {
        let t = s.drop_last();
        let u = deduped(t);
        lemma_deduped(t);
        let y = s.last();
        assert(t.last() == s[s.len() - 2]);
        assert(u.last() == t.last());
        if y == t.last() {
            assert forall|x: Seq<char>| #[trigger] u.contains(x) <==> s.contains(x) by {
                if s.contains(x) {
                    let k = choose|k: int| 0 <= k < s.len() && s[k] == x;
                    if k == s.len() - 1 {
                        assert(t[t.len() - 1] == x);
                    } else {
                        assert(t[k] == x);
                    }
                    assert(t.contains(x));
                }
                if t.contains(x) {
                    let k = choose|k: int| 0 <= k < t.len() && t[k] == x;
                    assert(s[k] == x);
                }
            }
        } else {
            let w = u.push(y);
            assert forall|i: int, j: int| 0 <= i < j < w.len() implies text::text_le(
                #[trigger] w[i],
                #[trigger] w[j],
            ) && w[i] != w[j] by {
                if j == u.len() {
                    assert(u.contains(u[i]));
                    let k = choose|k: int| 0 <= k < t.len() && t[k] == u[i];
                    assert(text_order()(s[k], s[s.len() - 1]));
                    if u[i] == y {
                        assert(text_order()(s[k], s[s.len() - 2]) || k == s.len() - 2);
                        assert(text_order()(s[s.len() - 2], s[s.len() - 1]));
                        if k != s.len() - 2 {
                            text::lemma_text_le_antisymmetric(y, s[s.len() - 2]);
                        }
                    }
                }
            }
            assert forall|x: Seq<char>| #[trigger] w.contains(x) <==> s.contains(x) by {
                if w.contains(x) {
                    let k = choose|k: int| 0 <= k < w.len() && w[k] == x;
                    if k < u.len() {
                        assert(u.contains(x));
                        assert(t.contains(x));
                        let i = choose|i: int| 0 <= i < t.len() && t[i] == x;
                        assert(s[i] == x);
                    } else {
                        assert(s[s.len() - 1] == x);
                    }
                }
                if s.contains(x) {
                    let k = choose|k: int| 0 <= k < s.len() && s[k] == x;
                    if k < t.len() {
                        assert(t[k] == x);
                        assert(u.contains(x));
                        let i = choose|i: int| 0 <= i < u.len() && u[i] == x;
                        assert(w[i] == x);
                    } else {
                        assert(w[w.len() - 1] == x);
                    }
                }
            }
        }
    }
}

/// A sorted set holds each member once, in ascending order, and nothing else.
pub proof fn law_sorted_set(s: Seq<Seq<char>>)
    ensures
        ascending(sorted_set(s)),
        forall|x: Seq<char>| #[trigger] sorted_set(s).contains(x) <==> s.contains(x),
{
    lemma_text_order();
    law_sorted(s, text_order());
    let t = sorted(s, text_order());
    lemma_deduped(t);
    assert forall|x: Seq<char>| #[trigger] sorted_set(s).contains(x) <==> s.contains(x) by {
        broadcast use vstd::seq_lib::group_to_multiset_ensures;

        assert(t.to_multiset().count(x) > 0 <==> t.contains(x));
        assert(s.to_multiset().count(x) > 0 <==> s.contains(x));
    }
}

/// Ascending sequences with the same members are the same.
pub proof fn law_ascending_unique(a: Seq<Seq<char>>, b: Seq<Seq<char>>)
    requires
        ascending(a),
        ascending(b),
        forall|x: Seq<char>| #[trigger] a.contains(x) <==> b.contains(x),
    ensures
        a == b,
    decreases a.len(),
{
    if a.len() == 0 || b.len() == 0 {
        if a.len() > 0 {
            assert(a.contains(a[0]));
        }
        if b.len() > 0 {
            assert(b.contains(b[0]));
            assert(a.contains(b[0]));
        }
        assert(a =~= b);
    } else {
        let x = a.last();
        let y = b.last();
        assert(a.contains(x) && b.contains(y));
        assert(b.contains(x) && a.contains(y));
        let i = choose|i: int| 0 <= i < b.len() && b[i] == x;
        let j = choose|j: int| 0 <= j < a.len() && a[j] == y;
        if i < b.len() - 1 {
            assert(text::text_le(b[i], b[b.len() - 1]) && b[i] != b[b.len() - 1]);
            assert(j < a.len() - 1 ==> text::text_le(a[j], a[a.len() - 1]));
            text::lemma_text_le_antisymmetric(x, y);
        }
        assert(x == y);
        let s = a.drop_last();
        let t = b.drop_last();
        assert forall|z: Seq<char>| #[trigger] s.contains(z) <==> t.contains(z) by {
            if s.contains(z) {
                let k = choose|k: int| 0 <= k < s.len() && s[k] == z;
                assert(a[k] == z && a[k] != a[a.len() - 1]);
                assert(a.contains(z));
                let l = choose|l: int| 0 <= l < b.len() && b[l] == z;
                assert(t[l] == z);
            }
            if t.contains(z) {
                let k = choose|k: int| 0 <= k < t.len() && t[k] == z;
                assert(b[k] == z && b[k] != b[b.len() - 1]);
                assert(b.contains(z));
                assert(a.contains(z));
                let l = choose|l: int| 0 <= l < a.len() && a[l] == z;
                assert(s[l] == z);
            }
        }
        law_ascending_unique(s, t);
        assert(a =~= s.push(x));
        assert(b =~= t.push(y));
    }
}

/// Sorts strings and drops duplicates.
pub fn sort_dedup(v: Vec<String>) -> (r: Vec<String>)
    ensures
        text::texts(r@) == sorted_set(text::texts(v@)),
{
    let t = sort_strings(v);
    dedup(&t)
}

/// Whether a text is among strings.
pub fn contains_text(v: &Vec<String>, s: &str) -> (r: bool)
    ensures
        r == text::texts(v@).contains(s@),
{
    let mut i: usize = 0;
    while i < v.len()
        invariant
            i <= v.len(),
            forall|j: int| 0 <= j < i ==> (#[trigger] v@[j])@ != s@,
        decreases v.len() - i,
    {
        if text::same(v[i].as_str(), s) {
            proof {
                assert(text::texts(v@)[i as int] == s@);
            }
            return true;
        }
        i += 1;
    }
    proof {
        if text::texts(v@).contains(s@) {
            let k = choose|k: int| 0 <= k < text::texts(v@).len() && text::texts(v@)[k] == s@;
            assert(v@[k]@ == s@);
        }
    }
    false
}

/// The texts that are not among `held`, in order.
pub open spec fn minus(s: Seq<Seq<char>>, held: Seq<Seq<char>>) -> Seq<Seq<char>>
    decreases s.len(),
{
    if s.len() == 0 {
        s
    } else {
        let before = minus(s.drop_last(), held);
        if held.contains(s.last()) {
            before
        } else {
            before.push(s.last())
        }
    }
}

/// Keeps the strings whose text is not among `held`.
pub fn subtract(v: &Vec<String>, held: &Vec<String>) -> (r: Vec<String>)
    ensures
        text::texts(r@) == minus(text::texts(v@), text::texts(held@)),
{
    broadcast use text::lemma_texts_push;

    let ghost all = text::texts(v@);
    let mut r: Vec<String> = Vec::new();
    let mut i: usize = 0;
    proof {
        assert(text::texts(r@) =~= minus(all.take(0), text::texts(held@)));
    }
    while i < v.len()
        invariant
            all == text::texts(v@),
            i <= v.len(),
            text::texts(r@) == minus(all.take(i as int), text::texts(held@)),
        decreases v.len() - i,
    {
        proof {
            assert(all.take(i + 1).drop_last() =~= all.take(i as int));
            assert(all.take(i + 1).last() == v@[i as int]@);
        }
        if !contains_text(held, v[i].as_str()) {
            r.push(v[i].clone());
        }
        i += 1;
    }
    proof {
        assert(all.take(v@.len() as int) =~= all);
    }
    r
}

/// What is left of a set without some texts: its other members, in order.
pub proof fn law_minus(s: Seq<Seq<char>>, held: Seq<Seq<char>>)
    ensures
        forall|x: Seq<char>| #[trigger]
            minus(s, held).contains(x) <==> s.contains(x) && !held.contains(x),
        ascending(s) ==> ascending(minus(s, held)),
    decreases s.len(),
{
    if s.len() > 0 {
        let t = s.drop_last();
        let u = minus(t, held);
        law_minus(t, held);
        let m = minus(s, held);
        assert forall|x: Seq<char>| #[trigger] m.contains(x) <==> s.contains(x) && !held.contains(
            x,
        ) by {
            if m.contains(x) {
                let k = choose|k: int| 0 <= k < m.len() && m[k] == x;
                if k < u.len() {
                    assert(u[k] == x);
                    assert(u.contains(x));
                    let l = choose|l: int| 0 <= l < t.len() && t[l] == x;
                    assert(s[l] == x);
                } else {
                    assert(s[s.len() - 1] == x);
                }
            }
            if s.contains(x) && !held.contains(x) {
                let k = choose|k: int| 0 <= k < s.len() && s[k] == x;
                if k < t.len() {
                    assert(t[k] == x);
                    assert(u.contains(x));
                    let l = choose|l: int| 0 <= l < u.len() && u[l] == x;
                    assert(m[l] == x);
                } else {
                    assert(m[m.len() - 1] == x);
                }
            }
        }
        if ascending(s) {
            assert(ascending(t)) by {
                assert forall|i: int, j: int| 0 <= i < j < t.len() implies text::text_le(
                    #[trigger] t[i],
                    #[trigger] t[j],
                ) && t[i] != t[j] by {
                    assert(s[i] == t[i] && s[j] == t[j]);
                }
            }
            assert forall|i: int, j: int| 0 <= i < j < m.len() implies text::text_le(
                #[trigger] m[i],
                #[trigger] m[j],
            ) && m[i] != m[j] by {
                if j < u.len() {
                    assert(u[i] == m[i] && u[j] == m[j]);
                } else {
                    assert(u.contains(u[i]));
                    let l = choose|l: int| 0 <= l < t.len() && t[l] == u[i];
                    assert(s[l] == u[i]);
                    assert(s[s.len() - 1] == m[j]);
                }
            }
        }
    }
}

proof fn lemma_inserted_rank<T>(s: Seq<T>, x: T, le: spec_fn(T, T) -> bool, of: T)
    requires
        is_ranking(le),
    ensures
        inserted(s, x, le).filter(|y: T| le(y, of) && le(of, y)) == s.push(x).filter(
            |y: T| le(y, of) && le(of, y),
        ),
    decreases s.len(),
{
    let same = |y: T| le(y, of) && le(of, y);
    reveal(Seq::filter);
    if s.len() > 0 && !le(s.last(), x) {
        let rest = s.drop_last();
        let last = s.last();
        lemma_inserted_rank(rest, x, le, of);
        assert(inserted(s, x, le).drop_last() =~= inserted(rest, x, le));
        assert(s.push(x).drop_last() =~= s);
        assert(rest.push(x).drop_last() =~= rest);
        if same(last) && same(x) {
            assert(le(last, of) && le(of, x));
            assert(le(last, x));
        }
        let kept = rest.filter(same);
        assert(s.filter(same) == if same(last) {
            kept.push(last)
        } else {
            kept
        });
        assert(rest.push(x).filter(same) == if same(x) {
            kept.push(x)
        } else {
            kept
        });
        assert(s.push(x).filter(same) == if same(x) {
            s.filter(same).push(x)
        } else {
            s.filter(same)
        });
        assert(inserted(s, x, le).filter(same) == if same(last) {
            inserted(rest, x, le).filter(same).push(last)
        } else {
            inserted(rest, x, le).filter(same)
        });
    }
}

/// Sorting keeps things of one rank in the order in which they came.
pub proof fn law_sorted_is_stable<T>(s: Seq<T>, le: spec_fn(T, T) -> bool, of: T)
    requires
        is_ranking(le),
    ensures
        sorted(s, le).filter(|y: T| le(y, of) && le(of, y)) == s.filter(
            |y: T| le(y, of) && le(of, y),
        ),
    decreases s.len(),
{
    let same = |y: T| le(y, of) && le(of, y);
    reveal(Seq::filter);
    if s.len() > 0 {
        let before = sorted(s.drop_last(), le);
        law_sorted_is_stable(s.drop_last(), le, of);
        lemma_inserted_rank(before, s.last(), le, of);
        assert(before.push(s.last()).drop_last() =~= before);
    }
}

/// What is left are the texts that are not held, in their order.
pub proof fn law_subtracted(s: Seq<Seq<char>>, held: Seq<Seq<char>>)
    ensures
        minus(s, held) == s.filter(|x: Seq<char>| !held.contains(x)),
    decreases s.len(),
{
    reveal(Seq::filter);
    if s.len() > 0 {
        law_subtracted(s.drop_last(), held);
    }
}

/// A run of equal things gives one of them, and no two that stand side by side
/// are equal.
pub proof fn law_deduped<T>(s: Seq<T>)
    ensures
        forall|i: int, j: int|
            0 <= i && j == i + 1 && j < deduped(s).len() ==> #[trigger] deduped(s)[i]
                != #[trigger] deduped(s)[j],
        forall|x: T| #[trigger] deduped(s).contains(x) <==> s.contains(x),
        s.len() > 0 ==> deduped(s).len() > 0 && deduped(s).last() == s.last(),
    decreases s.len(),
{
    if s.len() > 1 {
        let rest = s.drop_last();
        let before = deduped(rest);
        law_deduped(rest);
        let all = deduped(s);
        assert forall|x: T| #[trigger] all.contains(x) <==> s.contains(x) by {
            if all.contains(x) {
                let k = choose|k: int| 0 <= k < all.len() && all[k] == x;
                if k < before.len() {
                    assert(before[k] == x);
                    assert(before.contains(x));
                    let i = choose|i: int| 0 <= i < rest.len() && rest[i] == x;
                    assert(s[i] == x);
                } else {
                    assert(s[s.len() - 1] == x);
                }
            }
            if s.contains(x) {
                let i = choose|i: int| 0 <= i < s.len() && s[i] == x;
                if i < rest.len() {
                    assert(rest[i] == x);
                    assert(rest.contains(x));
                    assert(before.contains(x));
                    let k = choose|k: int| 0 <= k < before.len() && before[k] == x;
                    assert(all[k] == x);
                } else {
                    assert(all[all.len() - 1] == x);
                }
            }
        }
    } else if s.len() == 1 {
        assert(deduped(s) =~= s);
    }
}

/// Sorted texts ascend, and are the texts that they were.
pub proof fn law_sorted_texts(s: Seq<Seq<char>>, i: int, j: int)
    ensures
        sorted(s, text_order()).to_multiset() == s.to_multiset(),
        0 <= i < j < sorted(s, text_order()).len() ==> text::text_le(
            sorted(s, text_order())[i],
            sorted(s, text_order())[j],
        ),
{
    lemma_text_order();
    law_sorted(s, text_order());
    if 0 <= i < j < sorted(s, text_order()).len() {
        assert(text_order()(sorted(s, text_order())[i], sorted(s, text_order())[j]));
    }
}

} // verus!
