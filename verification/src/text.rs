//! Text as sequences of characters: splitting, trimming, searching, joining,
//! ordering and decimal notation.

use vstd::prelude::*;
use vstd::string::*;
use vstd::utf8::*;

verus! {

/// `String::push`: appends one character.
pub assume_specification[ String::push ](s: &mut String, c: char)
    ensures
        final(s)@ == old(s)@.push(c),
;

// ---------------------------------------------------------------------------
// Views of containers of text
// ---------------------------------------------------------------------------

/// The texts held by a sequence of strings.
pub open spec fn texts(v: Seq<String>) -> Seq<Seq<char>> {
    Seq::new(v.len(), |i: int| v[i]@)
}

/// The text held by an optional string.
pub open spec fn opt_text(o: Option<String>) -> Option<Seq<char>> {
    match o {
        Some(s) => Some(s@),
        None => None,
    }
}

/// The values that a sequence of representations stands for.
pub open spec fn views<T: View>(v: Seq<T>) -> Seq<T::V> {
    Seq::new(v.len(), |i: int| v[i]@)
}

/// Pushing a representation pushes its value.
pub broadcast proof fn lemma_views_push<T: View>(v: Seq<T>, x: T)
    ensures
        #[trigger] views(v.push(x)) == views(v).push(x@),
{
    assert(views(v.push(x)) =~= views(v).push(x@));
}

/// Pushing a string pushes its text.
pub broadcast proof fn lemma_texts_push(v: Seq<String>, s: String)
    ensures
        #[trigger] texts(v.push(s)) == texts(v).push(s@),
{
    assert(texts(v.push(s)) =~= texts(v).push(s@));
}

/// The characters of a text as a vector.
pub fn chars_of(s: &str) -> (v: Vec<char>)
    ensures
        v@ == s@,
{
    let mut v: Vec<char> = Vec::new();
    for c in it: s.chars()
        invariant
            it.seq() == s@,
            v@ == it.seq().take(it.index()),
    {
        v.push(c);
        proof {
            assert(it.seq().take(it.index() + 1) =~= it.seq().take(it.index()).push(c));
        }
    }
    proof {
        assert(s@.take(s@.len() as int) =~= s@);
    }
    v
}

/// The string made of the characters `from..to` of a vector.
pub fn slice_string(v: &Vec<char>, from: usize, to: usize) -> (s: String)
    requires
        from <= to <= v.len(),
    ensures
        s@ == v@.subrange(from as int, to as int),
{
    let mut s = String::new();
    let mut i: usize = from;
    while i < to
        invariant
            from <= i <= to <= v.len(),
            s@ == v@.subrange(from as int, i as int),
        decreases to - i,
    {
        s.push(v[i]);
        proof {
            assert(v@.subrange(from as int, i + 1) =~= v@.subrange(from as int, i as int).push(
                v@[i as int],
            ));
        }
        i += 1;
    }
    s
}

/// Whether two texts are the same.
pub fn same(a: &str, b: &str) -> (r: bool)
    ensures
        r == (a@ == b@),
{
    a.to_owned() == b.to_owned()
}

/// A copy of an optional string.
pub fn clone_opt(o: &Option<String>) -> (r: Option<String>)
    ensures
        opt_text(r) == opt_text(*o),
{
    match o {
        Some(s) => Some(s.clone()),
        None => None,
    }
}

/// A copy of a list of strings.
pub fn clone_all(v: &Vec<String>) -> (r: Vec<String>)
    ensures
        texts(r@) == texts(v@),
{
    let mut r: Vec<String> = Vec::new();
    let mut i: usize = 0;
    while i < v.len()
        invariant
            i <= v.len(),
            r.len() == i,
            forall|j: int| 0 <= j < i ==> (#[trigger] r@[j])@ == v@[j]@,
        decreases v.len() - i,
    {
        r.push(v[i].clone());
        i += 1;
    }
    proof {
        assert(texts(r@) =~= texts(v@));
    }
    r
}

// ---------------------------------------------------------------------------
// White space and trimming
// ---------------------------------------------------------------------------

/// The Unicode `White_Space` property.
pub open spec fn is_white(c: char) -> bool {
    let n = c as u32;
    ||| 0x9 <= n <= 0xd
    ||| n == 0x20
    ||| n == 0x85
    ||| n == 0xa0
    ||| n == 0x1680
    ||| 0x2000 <= n <= 0x200a
    ||| n == 0x2028
    ||| n == 0x2029
    ||| n == 0x202f
    ||| n == 0x205f
    ||| n == 0x3000
}

/// Tests a character for the Unicode `White_Space` property.
pub fn white(c: char) -> (r: bool)
    ensures
        r == is_white(c),
{
    let n: u32 = c as u32;
    (0x9 <= n && n <= 0xd) || n == 0x20 || n == 0x85 || n == 0xa0 || n == 0x1680 || (0x2000 <= n
        && n <= 0x200a) || n == 0x2028 || n == 0x2029 || n == 0x202f || n == 0x205f || n == 0x3000
}

/// The text without its leading white space.
pub open spec fn trim_start(s: Seq<char>) -> Seq<char>
    decreases s.len(),
{
    if s.len() > 0 && is_white(s[0]) {
        trim_start(s.drop_first())
    } else {
        s
    }
}

/// The text without its trailing white space.
pub open spec fn trim_end(s: Seq<char>) -> Seq<char>
    decreases s.len(),
{
    if s.len() > 0 && is_white(s.last()) {
        trim_end(s.drop_last())
    } else {
        s
    }
}

/// The text without leading and trailing white space.
pub open spec fn trimmed(s: Seq<char>) -> Seq<char> {
    trim_end(trim_start(s))
}

/// Removes leading and trailing white space.
pub fn trim(s: &str) -> (r: String)
    ensures
        r@ == trimmed(s@),
{
    let v = chars_of(s);
    let n: usize = v.len();
    let mut a: usize = 0;
    proof {
        assert(v@.subrange(0, n as int) =~= v@);
    }
    while a < n && white(v[a])
        invariant
            n == v.len(),
            a <= n,
            trim_start(v@) == trim_start(v@.subrange(a as int, n as int)),
        decreases n - a,
    {
        proof {
            assert(v@.subrange(a as int, n as int).drop_first() =~= v@.subrange(a + 1, n as int));
        }
        a += 1;
    }
    let mut b: usize = n;
    proof {
        assert(trim_start(v@) == v@.subrange(a as int, n as int));
    }
    while a < b && white(v[b - 1])
        invariant
            n == v.len(),
            a <= b <= n,
            trimmed(v@) == trim_end(v@.subrange(a as int, b as int)),
        decreases b,
    {
        proof {
            assert(v@.subrange(a as int, b as int).drop_last() =~= v@.subrange(a as int, b - 1));
        }
        b -= 1;
    }
    slice_string(&v, a, b)
}

/// The text without any trailing occurrence of `c`.
pub open spec fn without_trailing(s: Seq<char>, c: char) -> Seq<char>
    decreases s.len(),
{
    if s.len() > 0 && s.last() == c {
        without_trailing(s.drop_last(), c)
    } else {
        s
    }
}

/// Removes every trailing occurrence of `c`.
pub fn trim_end_char(s: &str, c: char) -> (r: String)
    ensures
        r@ == without_trailing(s@, c),
{
    let v = chars_of(s);
    let mut b: usize = v.len();
    proof {
        assert(v@.subrange(0, b as int) =~= v@);
    }
    while 0 < b && v[b - 1] == c
        invariant
            b <= v.len(),
            without_trailing(v@, c) == without_trailing(v@.subrange(0, b as int), c),
        decreases b,
    {
        proof {
            assert(v@.subrange(0, b as int).drop_last() =~= v@.subrange(0, b - 1));
        }
        b -= 1;
    }
    slice_string(&v, 0, b)
}

// ---------------------------------------------------------------------------
// Splitting
// ---------------------------------------------------------------------------

/// What separates the pieces of a split text.
#[derive(Clone, Copy)]
pub enum Separator {
    /// One given character.
    Char(char),
    /// Any white-space character.
    Whitespace,
}

/// Whether `c` is a separator.
pub open spec fn separates(sep: Separator, c: char) -> bool {
    match sep {
        Separator::Char(x) => c == x,
        Separator::Whitespace => is_white(c),
    }
}

/// The pieces between separators; there is always at least one.
pub open spec fn split_pieces(s: Seq<char>, sep: Separator) -> Seq<Seq<char>>
    decreases s.len(),
{
    if s.len() == 0 {
        seq![Seq::<char>::empty()]
    } else {
        let before = split_pieces(s.drop_last(), sep);
        if separates(sep, s.last()) {
            before.push(Seq::<char>::empty())
        } else {
            before.drop_last().push(before.last().push(s.last()))
        }
    }
}

/// A split text has at least one piece.
pub proof fn lemma_split_nonempty(s: Seq<char>, sep: Separator)
    ensures
        split_pieces(s, sep).len() > 0,
    decreases s.len(),
{
    if s.len() > 0 {
        lemma_split_nonempty(s.drop_last(), sep);
    }
}

/// Splits a text at its separators.
pub fn split(s: &str, sep: Separator) -> (r: Vec<String>)
    ensures
        texts(r@) == split_pieces(s@, sep),
        r.len() > 0,
{
    broadcast use lemma_texts_push;

    let v = chars_of(s);
    let mut done: Vec<String> = Vec::new();
    let mut cur = String::new();
    let mut i: usize = 0;
    proof {
        assert(v@.take(0) =~= Seq::<char>::empty());
        assert(texts(done@).push(cur@) =~= split_pieces(v@.take(0), sep));
    }
    while i < v.len()
        invariant
            i <= v.len(),
            texts(done@).push(cur@) == split_pieces(v@.take(i as int), sep),
        decreases v.len() - i,
    {
        let c = v[i];
        let cut = match sep {
            Separator::Char(x) => c == x,
            Separator::Whitespace => white(c),
        };
        let ghost before = split_pieces(v@.take(i as int), sep);
        proof {
            assert(v@.take(i + 1).drop_last() =~= v@.take(i as int));
            assert(before.drop_last() =~= texts(done@));
            assert(before.last() == cur@);
        }
        if cut {
            done.push(cur);
            cur = String::new();
        } else {
            cur.push(c);
        }
        proof {
            assert(texts(done@).push(cur@) =~= split_pieces(v@.take(i + 1), sep));
        }
        i += 1;
    }
    proof {
        assert(v@.take(v@.len() as int) =~= v@);
    }
    done.push(cur);
    done
}

/// The pieces of a text that are not empty, in order.
pub open spec fn non_empty(pieces: Seq<Seq<char>>) -> Seq<Seq<char>>
    decreases pieces.len(),
{
    if pieces.len() == 0 {
        pieces
    } else {
        let before = non_empty(pieces.drop_last());
        if pieces.last().len() == 0 {
            before
        } else {
            before.push(pieces.last())
        }
    }
}

/// The words of a text: its pieces between white space.
pub open spec fn words_of(s: Seq<char>) -> Seq<Seq<char>> {
    non_empty(split_pieces(s, Separator::Whitespace))
}

/// Keeps the strings that are not empty.
pub fn keep_non_empty(v: &Vec<String>) -> (r: Vec<String>)
    ensures
        texts(r@) == non_empty(texts(v@)),
{
    broadcast use lemma_texts_push;

    let mut r: Vec<String> = Vec::new();
    let mut i: usize = 0;
    proof {
        assert(texts(v@).take(0) =~= Seq::<Seq<char>>::empty());
        assert(texts(r@) =~= Seq::<Seq<char>>::empty());
    }
    while i < v.len()
        invariant
            i <= v.len(),
            texts(r@) == non_empty(texts(v@).take(i as int)),
        decreases v.len() - i,
    {
        proof {
            assert(texts(v@).take(i + 1).drop_last() =~= texts(v@).take(i as int));
        }
        if !v[i].as_str().is_empty() {
            r.push(v[i].clone());
        }
        i += 1;
    }
    proof {
        assert(texts(v@).take(v@.len() as int) =~= texts(v@));
    }
    r
}

/// Splits a text into its words.
pub fn split_whitespace(s: &str) -> (r: Vec<String>)
    ensures
        texts(r@) == words_of(s@),
{
    let pieces = split(s, Separator::Whitespace);
    keep_non_empty(&pieces)
}

/// A line without the carriage return that belongs to its line break.
pub open spec fn without_return(s: Seq<char>) -> Seq<char> {
    if s.len() > 0 && s.last() == '\r' {
        s.drop_last()
    } else {
        s
    }
}

/// The lines of a text. A line ends at `\n` or `\r\n`; the break after the
/// last line is optional.
pub open spec fn lines_of(s: Seq<char>) -> Seq<Seq<char>> {
    let pieces = split_pieces(s, Separator::Char('\n'));
    let ended = pieces.drop_last().map_values(|p: Seq<char>| without_return(p));
    if pieces.last().len() == 0 {
        ended
    } else {
        ended.push(pieces.last())
    }
}

/// Splits a text into its lines.
pub fn lines(s: &str) -> (r: Vec<String>)
    ensures
        texts(r@) == lines_of(s@),
{
    broadcast use lemma_texts_push;

    let pieces = split(s, Separator::Char('\n'));
    let ghost all = texts(pieces@);
    let last: usize = pieces.len() - 1;
    let mut r: Vec<String> = Vec::new();
    let mut i: usize = 0;
    while i < last
        invariant
            i <= last,
            last == pieces.len() - 1,
            r.len() == i,
            forall|j: int| 0 <= j < i ==> (#[trigger] r@[j])@ == without_return(pieces@[j]@),
        decreases last - i,
    {
        let piece = chars_of(pieces[i].as_str());
        let n: usize = piece.len();
        if n > 0 && piece[n - 1] == '\r' {
            proof {
                assert(piece@.subrange(0, n - 1) =~= piece@.drop_last());
            }
            r.push(slice_string(&piece, 0, n - 1));
        } else {
            r.push(pieces[i].clone());
        }
        i += 1;
    }
    proof {
        assert(texts(r@) =~= all.drop_last().map_values(|p: Seq<char>| without_return(p)));
    }
    if !pieces[last].as_str().is_empty() {
        r.push(pieces[last].clone());
    }
    r
}

// ---------------------------------------------------------------------------
// Joining
// ---------------------------------------------------------------------------

/// The pieces with `sep` between each two.
pub open spec fn joined(pieces: Seq<Seq<char>>, sep: Seq<char>) -> Seq<char>
    decreases pieces.len(),
{
    if pieces.len() == 0 {
        Seq::empty()
    } else if pieces.len() == 1 {
        pieces[0]
    } else {
        joined(pieces.drop_last(), sep) + sep + pieces.last()
    }
}

/// A text after which `t` follows without a separator is split as before, with
/// `t` behind the last piece.
proof fn lemma_split_append(s: Seq<char>, t: Seq<char>, sep: Separator)
    requires
        forall|i: int| 0 <= i < t.len() ==> !separates(sep, #[trigger] t[i]),
    ensures
        split_pieces(s + t, sep) == split_pieces(s, sep).drop_last().push(
            split_pieces(s, sep).last() + t,
        ),
    decreases t.len(),
{
    lemma_split_nonempty(s, sep);
    let pieces = split_pieces(s, sep);
    if t.len() == 0 {
        assert(s + t =~= s);
        assert(pieces.last() + t =~= pieces.last());
        assert(pieces.drop_last().push(pieces.last()) =~= pieces);
    } else {
        let u = t.drop_last();
        assert forall|i: int| 0 <= i < u.len() implies !separates(sep, #[trigger] u[i]) by {
            assert(u[i] == t[i]);
        }
        lemma_split_append(s, u, sep);
        assert((s + t).drop_last() =~= s + u);
        let before = pieces.drop_last().push(pieces.last() + u);
        assert(before.drop_last() =~= pieces.drop_last());
        assert((pieces.last() + u).push(t.last()) =~= pieces.last() + t);
        assert(!separates(sep, t[t.len() - 1]));
    }
}

proof fn lemma_split_first(s: Seq<char>, t: Seq<char>, sep: Separator)
    requires
        split_pieces(s, sep).len() >= 2,
    ensures
        split_pieces(s + t, sep).len() >= 2,
        split_pieces(s + t, sep)[0] == split_pieces(s, sep)[0],
    decreases t.len(),
{
    if t.len() == 0 {
        assert(s + t =~= s);
    } else {
        lemma_split_first(s, t.drop_last(), sep);
        assert((s + t).drop_last() =~= s + t.drop_last());
    }
}

/// A line that is ended becomes the last full piece.
pub proof fn lemma_split_ended(s: Seq<char>, rows: Seq<Seq<char>>, line: Seq<char>)
    requires
        split_pieces(s, Separator::Char('\n')) == rows.push(Seq::<char>::empty()),
        !line.contains('\n'),
    ensures
        split_pieces((s + line).push('\n'), Separator::Char('\n')) == rows.push(line).push(
            Seq::<char>::empty(),
        ),
{
    let sep = Separator::Char('\n');
    let none = Seq::<char>::empty();
    assert forall|i: int| 0 <= i < line.len() implies !separates(sep, #[trigger] line[i]) by {
        assert(line.contains(line[i]));
    }
    lemma_split_append(s, line, sep);
    assert(rows.push(none).drop_last() =~= rows);
    assert(none + line =~= line);
    assert((s + line).push('\n').drop_last() =~= s + line);
}

/// No piece holds a separator.
pub proof fn lemma_split_clean(s: Seq<char>, c: char)
    ensures
        forall|k: int|
            0 <= k < split_pieces(s, Separator::Char(c)).len() ==> !(#[trigger] split_pieces(
                s,
                Separator::Char(c),
            )[k]).contains(c),
    decreases s.len(),
{
    let sep = Separator::Char(c);
    lemma_split_nonempty(s, sep);
    let pieces = split_pieces(s, sep);
    if s.len() > 0 {
        lemma_split_clean(s.drop_last(), c);
        lemma_split_nonempty(s.drop_last(), sep);
        let before = split_pieces(s.drop_last(), sep);
        assert forall|k: int| 0 <= k < pieces.len() implies !(#[trigger] pieces[k]).contains(c) by {
            if k < before.len() - 1 {
                assert(pieces[k] == before[k]);
            } else if !separates(sep, s.last()) {
                let last = before[before.len() - 1];
                assert(pieces[k] == last.push(s.last()));
                if pieces[k].contains(c) {
                    let i = choose|i: int| 0 <= i < pieces[k].len() && pieces[k][i] == c;
                    assert(last[i] == c);
                }
            } else if k == before.len() - 1 {
                assert(pieces[k] == before[k]);
            }
        }
    }
}

/// No line holds a line feed.
pub proof fn lemma_lines_clean(s: Seq<char>)
    ensures
        forall|k: int|
            0 <= k < lines_of(s).len() ==> !(#[trigger] lines_of(s)[k]).contains('\n'),
{
    let pieces = split_pieces(s, Separator::Char('\n'));
    lemma_split_nonempty(s, Separator::Char('\n'));
    lemma_split_clean(s, '\n');
    assert forall|k: int| 0 <= k < lines_of(s).len() implies !(
    #[trigger] lines_of(s)[k]).contains('\n') by {
        let piece = pieces[k];
        assert(!piece.contains('\n'));
        if lines_of(s)[k].contains('\n') {
            let i = choose|i: int| 0 <= i < lines_of(s)[k].len() && lines_of(s)[k][i] == '\n';
            assert(piece[i] == '\n');
        }
    }
}

/// What stands before the first separator is the first piece.
pub proof fn lemma_first_piece(name: Seq<char>, c: char, rest: Seq<char>)
    requires
        !name.contains(c),
    ensures
        split_pieces(name, Separator::Char(c)) == seq![name],
        split_pieces(name + seq![c] + rest, Separator::Char(c))[0] == name,
{
    let sep = Separator::Char(c);
    let none = Seq::<char>::empty();
    assert forall|i: int| 0 <= i < name.len() implies !separates(sep, #[trigger] name[i]) by {
        assert(name.contains(name[i]));
    }
    lemma_split_append(none, name, sep);
    assert(none + name =~= name);
    assert(split_pieces(none, sep) =~= seq![none]);
    assert(split_pieces(name, sep) =~= seq![name]);
    let s = name + seq![c];
    assert(s.drop_last() =~= name);
    assert(split_pieces(s, sep) =~= seq![name, none]);
    lemma_split_first(s, rest, sep);
}

/// Pieces that hold no separator come back when they are joined by one and
/// split again.
pub proof fn lemma_split_joined(pieces: Seq<Seq<char>>, c: char, sep: Separator)
    requires
        pieces.len() > 0,
        separates(sep, c),
        forall|k: int, i: int|
            0 <= k < pieces.len() && 0 <= i < pieces[k].len() ==> !separates(
                sep,
                #[trigger] pieces[k][i],
            ),
    ensures
        split_pieces(joined(pieces, seq![c]), sep) == pieces,
    decreases pieces.len(),
{
    let last = pieces.last();
    assert forall|i: int| 0 <= i < last.len() implies !separates(sep, #[trigger] last[i]) by {
        assert(pieces[pieces.len() - 1][i] == last[i]);
    }
    let none = Seq::<char>::empty();
    if pieces.len() == 1 {
        lemma_split_append(none, last, sep);
        assert(none + last =~= pieces[0]);
        assert(split_pieces(none, sep) =~= seq![none]);
        assert(split_pieces(pieces[0], sep) =~= pieces);
    } else {
        let rest = pieces.drop_last();
        assert forall|k: int, i: int|
            0 <= k < rest.len() && 0 <= i < rest[k].len() implies !separates(
            sep,
            #[trigger] rest[k][i],
        ) by {
            assert(rest[k] == pieces[k]);
        }
        lemma_split_joined(rest, c, sep);
        let s = joined(rest, seq![c]);
        let t = s + seq![c];
        assert(t.drop_last() =~= s);
        assert(split_pieces(t, sep) == rest.push(none));
        lemma_split_append(t, last, sep);
        assert(rest.push(none).drop_last() =~= rest);
        assert(none + last =~= last);
        assert(rest.push(last) =~= pieces);
    }
}

/// Dropping empty pieces changes nothing where there are none.
pub proof fn lemma_non_empty_same(pieces: Seq<Seq<char>>)
    requires
        forall|k: int| 0 <= k < pieces.len() ==> (#[trigger] pieces[k]).len() > 0,
    ensures
        non_empty(pieces) == pieces,
    decreases pieces.len(),
{
    if pieces.len() > 0 {
        let rest = pieces.drop_last();
        assert forall|k: int| 0 <= k < rest.len() implies (#[trigger] rest[k]).len() > 0 by {
            assert(rest[k] == pieces[k]);
        }
        lemma_non_empty_same(rest);
        assert(pieces[pieces.len() - 1].len() > 0);
        assert(rest.push(pieces.last()) =~= pieces);
    }
}

/// Joins strings with `sep` between each two.
pub fn join(v: &Vec<String>, sep: &str) -> (r: String)
    ensures
        r@ == joined(texts(v@), sep@),
{
    let mut r = String::new();
    let mut i: usize = 0;
    proof {
        assert(texts(v@).take(0) =~= Seq::<Seq<char>>::empty());
    }
    while i < v.len()
        invariant
            i <= v.len(),
            r@ == joined(texts(v@).take(i as int), sep@),
        decreases v.len() - i,
    {
        let ghost before = texts(v@).take(i as int);
        proof {
            assert(texts(v@).take(i + 1).drop_last() =~= before);
            assert(texts(v@).take(i + 1).last() == v@[i as int]@);
        }
        if i > 0 {
            r.append(sep);
            r.append(v[i].as_str());
        } else {
            r.append(v[i].as_str());
            proof {
                assert(r@ =~= v@[i as int]@);
            }
        }
        i += 1;
    }
    proof {
        assert(texts(v@).take(v@.len() as int) =~= texts(v@));
    }
    r
}

// ---------------------------------------------------------------------------
// Lines and words that hold something
// ---------------------------------------------------------------------------

/// The texts without white space around them.
pub open spec fn all_trimmed(s: Seq<Seq<char>>) -> Seq<Seq<char>> {
    Seq::new(s.len(), |i: int| trimmed(s[i]))
}

/// The lines of a text that hold something, without white space around them.
pub open spec fn filled_lines(s: Seq<char>) -> Seq<Seq<char>> {
    non_empty(all_trimmed(lines_of(s)))
}

/// Reads the lines of a text that hold something.
pub fn read_lines(s: &str) -> (r: Vec<String>)
    ensures
        texts(r@) == filled_lines(s@),
{
    let lines = lines(s);
    let mut out: Vec<String> = Vec::new();
    let mut i: usize = 0;
    while i < lines.len()
        invariant
            i <= lines.len(),
            out.len() == i,
            forall|j: int| 0 <= j < i ==> (#[trigger] out@[j])@ == trimmed(lines@[j]@),
        decreases lines.len() - i,
    {
        out.push(trim(lines[i].as_str()));
        i += 1;
    }
    proof {
        assert(texts(out@) =~= all_trimmed(texts(lines@)));
    }
    keep_non_empty(&out)
}

/// Whether a text fills a line of its own: it holds no line break and no white
/// space at its ends.
pub open spec fn is_line(s: Seq<char>) -> bool {
    &&& s.len() > 0
    &&& !is_white(s[0])
    &&& !is_white(s.last())
    &&& forall|i: int| 0 <= i < s.len() ==> #[trigger] s[i] != '\n'
}

/// Whether a text is one word.
pub open spec fn is_word(s: Seq<char>) -> bool {
    &&& s.len() > 0
    &&& forall|i: int| 0 <= i < s.len() ==> !is_white(#[trigger] s[i])
}

/// Lines come back when they are joined and read again.
pub proof fn law_lines_round_trip(lines: Seq<Seq<char>>)
    requires
        forall|k: int| 0 <= k < lines.len() ==> is_line(#[trigger] lines[k]),
    ensures
        filled_lines(joined(lines, "\n"@)) == lines,
{
    let br = Separator::Char('\n');
    reveal_strlit("\n");
    assert("\n"@ =~= seq!['\n']);
    let s = joined(lines, "\n"@);
    if lines.len() == 0 {
        assert(split_pieces(s, br) =~= seq![Seq::<char>::empty()]);
        assert(lines_of(s) =~= lines);
        assert(all_trimmed(lines) =~= lines);
    } else {
        assert forall|k: int, i: int|
            0 <= k < lines.len() && 0 <= i < lines[k].len() implies !separates(
            br,
            #[trigger] lines[k][i],
        ) by {
            assert(is_line(lines[k]));
        }
        lemma_split_joined(lines, '\n', br);
        let f = |p: Seq<char>| without_return(p);
        assert(is_line(lines[lines.len() - 1]));
        assert(is_white('\r'));
        assert forall|k: int| 0 <= k < lines.len() implies without_return(
            #[trigger] lines[k],
        ) == lines[k] && trimmed(lines[k]) == lines[k] by {
            assert(is_line(lines[k]));
        }
        assert(lines.drop_last().map_values(f) =~= lines.drop_last());
        assert(lines.drop_last().push(lines.last()) =~= lines);
        assert(lines_of(s) == lines);
        assert(all_trimmed(lines) =~= lines);
        assert forall|k: int| 0 <= k < lines.len() implies (#[trigger] lines[k]).len() > 0 by {
            assert(is_line(lines[k]));
        }
        lemma_non_empty_same(lines);
    }
}

/// Lines come back when each is ended and they are read again.
pub proof fn law_ended_lines_round_trip(lines: Seq<Seq<char>>)
    requires
        forall|k: int| 0 <= k < lines.len() ==> is_line(#[trigger] lines[k]),
    ensures
        filled_lines(joined(lines, "\n"@) + "\n"@) == lines,
{
    let br = Separator::Char('\n');
    let none = Seq::<char>::empty();
    reveal_strlit("\n");
    assert("\n"@ =~= seq!['\n']);
    let s = joined(lines, "\n"@) + "\n"@;
    let f = |p: Seq<char>| without_return(p);
    if lines.len() == 0 {
        assert(s =~= none.push('\n'));
        assert(s.drop_last() =~= none);
        assert(split_pieces(none, br) =~= seq![none]);
        assert(split_pieces(s, br) =~= seq![none, none]);
        assert(seq![none, none].drop_last().map_values(f) =~= seq![none]);
        assert(lines_of(s) =~= seq![none]);
        assert(all_trimmed(seq![none]) =~= seq![none]);
        assert(seq![none].drop_last() =~= Seq::<Seq<char>>::empty());
        assert(non_empty(Seq::<Seq<char>>::empty()) =~= lines);
        assert(non_empty(seq![none]) =~= lines);
    } else {
        let pieces = lines.push(none);
        assert(pieces.drop_last() =~= lines);
        assert(joined(pieces, "\n"@) =~= s);
        assert forall|k: int, i: int|
            0 <= k < pieces.len() && 0 <= i < pieces[k].len() implies !separates(
            br,
            #[trigger] pieces[k][i],
        ) by {
            assert(k < lines.len());
            assert(is_line(lines[k]));
        }
        lemma_split_joined(pieces, '\n', br);
        assert(is_white('\r'));
        assert forall|k: int| 0 <= k < lines.len() implies without_return(
            #[trigger] lines[k],
        ) == lines[k] && trimmed(lines[k]) == lines[k] && lines[k].len() > 0 by {
            assert(is_line(lines[k]));
        }
        assert(lines.map_values(f) =~= lines);
        assert(lines_of(s) == lines);
        assert(all_trimmed(lines) =~= lines);
        lemma_non_empty_same(lines);
    }
}

/// Words come back when they are joined and read again.
pub proof fn law_words_round_trip(words: Seq<Seq<char>>)
    requires
        forall|k: int| 0 <= k < words.len() ==> is_word(#[trigger] words[k]),
    ensures
        words_of(joined(words, " "@)) == words,
{
    let sep = Separator::Whitespace;
    reveal_strlit(" ");
    assert(" "@ =~= seq![' ']);
    if words.len() == 0 {
        let none = Seq::<char>::empty();
        assert(split_pieces(none, sep) =~= seq![none]);
        assert(seq![none].drop_last() =~= Seq::<Seq<char>>::empty());
        assert(non_empty(seq![none].drop_last()) =~= Seq::<Seq<char>>::empty());
        assert(non_empty(seq![none]) =~= words);
    } else {
        assert forall|k: int, i: int|
            0 <= k < words.len() && 0 <= i < words[k].len() implies !separates(
            sep,
            #[trigger] words[k][i],
        ) by {
            assert(is_word(words[k]));
        }
        lemma_split_joined(words, ' ', sep);
        assert forall|k: int| 0 <= k < words.len() implies (#[trigger] words[k]).len() > 0 by {
            assert(is_word(words[k]));
        }
        lemma_non_empty_same(words);
    }
}

// ---------------------------------------------------------------------------
// Searching
// ---------------------------------------------------------------------------

/// Whether `needle` stands in `hay` at position `i`.
pub open spec fn occurs_at(hay: Seq<char>, needle: Seq<char>, i: int) -> bool {
    0 <= i && i + needle.len() <= hay.len() && hay.subrange(i, i + needle.len()) == needle
}

/// Whether `needle` stands somewhere in `hay`.
pub open spec fn occurs(hay: Seq<char>, needle: Seq<char>) -> bool {
    exists|i: int| occurs_at(hay, needle, i)
}

/// The position of the first occurrence of `needle`.
pub fn find(hay: &Vec<char>, needle: &Vec<char>) -> (r: Option<usize>)
    ensures
        match r {
            Some(i) => occurs_at(hay@, needle@, i as int) && forall|j: int|
                0 <= j < i ==> !occurs_at(hay@, needle@, j),
            None => !occurs(hay@, needle@),
        },
{
    let n: usize = hay.len();
    let m: usize = needle.len();
    if m > n {
        return None;
    }
    let mut i: usize = 0;
    while i <= n - m
        invariant
            n == hay.len(),
            m == needle.len(),
            m <= n,
            i <= n - m + 1,
            forall|j: int| 0 <= j < i ==> !occurs_at(hay@, needle@, j),
        decreases n - m + 1 - i,
    {
        let mut k: usize = 0;
        while k < m && hay[i + k] == needle[k]
            invariant
                n == hay.len(),
                m == needle.len(),
                i + m <= n,
                k <= m,
                forall|j: int| 0 <= j < k ==> hay@[i + j] == needle@[j],
            decreases m - k,
        {
            k += 1;
        }
        if k == m {
            proof {
                assert(hay@.subrange(i as int, i + m) =~= needle@);
            }
            return Some(i);
        }
        proof {
            if occurs_at(hay@, needle@, i as int) {
                assert(hay@.subrange(i as int, i + m)[k as int] == needle@[k as int]);
            }
        }
        if i == n - m {
            return None;
        }
        i += 1;
    }
    None
}

/// Whether `needle` stands somewhere in `hay`.
pub fn contains(hay: &str, needle: &str) -> (r: bool)
    ensures
        r == occurs(hay@, needle@),
{
    let h = chars_of(hay);
    let n = chars_of(needle);
    match find(&h, &n) {
        Some(i) => {
            proof {
                assert(occurs_at(hay@, needle@, i as int));
            }
            true
        },
        None => false,
    }
}

/// Whether a text starts with `prefix`.
pub open spec fn has_prefix(s: Seq<char>, prefix: Seq<char>) -> bool {
    occurs_at(s, prefix, 0)
}

/// The text after `prefix`, where it starts with it.
pub fn strip_prefix(s: &str, prefix: &str) -> (r: Option<String>)
    ensures
        r is Some == has_prefix(s@, prefix@),
        r matches Some(rest) ==> rest@ == s@.skip(prefix@.len() as int),
{
    let v = chars_of(s);
    let p = chars_of(prefix);
    if p.len() > v.len() {
        return None;
    }
    let mut i: usize = 0;
    while i < p.len()
        invariant
            v@ == s@,
            p@ == prefix@,
            p.len() <= v.len(),
            i <= p.len(),
            forall|j: int| 0 <= j < i ==> v@[j] == p@[j],
        decreases p.len() - i,
    {
        if v[i] != p[i] {
            proof {
                if has_prefix(v@, p@) {
                    assert(v@.subrange(0, p@.len() as int)[i as int] == p@[i as int]);
                }
            }
            return None;
        }
        i += 1;
    }
    proof {
        assert(v@.subrange(0, p@.len() as int) =~= p@);
        assert(v@.skip(p@.len() as int) =~= v@.subrange(p@.len() as int, v@.len() as int));
    }
    Some(slice_string(&v, p.len(), v.len()))
}

// ---------------------------------------------------------------------------
// Character-wise changes
// ---------------------------------------------------------------------------

/// The ASCII lower-case form of a character; others stay.
pub open spec fn lower(c: char) -> char {
    if 'A' <= c <= 'Z' {
        ((c as u32) + 32) as char
    } else {
        c
    }
}

/// The text with its ASCII letters in lower case.
pub open spec fn lowered(s: Seq<char>) -> Seq<char> {
    s.map_values(|c: char| lower(c))
}

/// Puts one character into ASCII lower case.
pub fn lower_char(c: char) -> (r: char)
    ensures
        r == lower(c),
{
    match c {
        'A' => 'a',
        'B' => 'b',
        'C' => 'c',
        'D' => 'd',
        'E' => 'e',
        'F' => 'f',
        'G' => 'g',
        'H' => 'h',
        'I' => 'i',
        'J' => 'j',
        'K' => 'k',
        'L' => 'l',
        'M' => 'm',
        'N' => 'n',
        'O' => 'o',
        'P' => 'p',
        'Q' => 'q',
        'R' => 'r',
        'S' => 's',
        'T' => 't',
        'U' => 'u',
        'V' => 'v',
        'W' => 'w',
        'X' => 'x',
        'Y' => 'y',
        'Z' => 'z',
        _ => c,
    }
}

/// Puts the ASCII letters of a text into lower case.
pub fn to_lower(s: &str) -> (r: String)
    ensures
        r@ == lowered(s@),
{
    let v = chars_of(s);
    let mut r = String::new();
    let mut i: usize = 0;
    while i < v.len()
        invariant
            i <= v.len(),
            r@.len() == i,
            forall|j: int| 0 <= j < i ==> r@[j] == lower(v@[j]),
        decreases v.len() - i,
    {
        r.push(lower_char(v[i]));
        i += 1;
    }
    proof {
        assert(r@ =~= lowered(s@));
    }
    r
}

/// Whether `needle` stands somewhere in `hay`, whatever the case of ASCII
/// letters.
pub open spec fn occurs_nocase(hay: Seq<char>, needle: Seq<char>) -> bool {
    occurs(lowered(hay), lowered(needle))
}

/// Case-insensitive search (ASCII letters).
pub fn contains_nocase(hay: &str, needle: &str) -> (r: bool)
    ensures
        r == occurs_nocase(hay@, needle@),
{
    let h = to_lower(hay);
    let n = to_lower(needle);
    contains(h.as_str(), n.as_str())
}

/// The text with `by` in place of each `c`.
pub open spec fn replaced(s: Seq<char>, c: char, by: Seq<char>) -> Seq<char>
    decreases s.len(),
{
    if s.len() == 0 {
        s
    } else if s.last() == c {
        replaced(s.drop_last(), c, by) + by
    } else {
        replaced(s.drop_last(), c, by).push(s.last())
    }
}

/// Replaces each `c` by a text.
pub fn replace_char(s: &str, c: char, by: &str) -> (r: String)
    ensures
        r@ == replaced(s@, c, by@),
{
    let v = chars_of(s);
    let mut r = String::new();
    let mut i: usize = 0;
    proof {
        assert(v@.take(0) =~= Seq::<char>::empty());
    }
    while i < v.len()
        invariant
            i <= v.len(),
            r@ == replaced(v@.take(i as int), c, by@),
        decreases v.len() - i,
    {
        proof {
            assert(v@.take(i + 1).drop_last() =~= v@.take(i as int));
        }
        if v[i] == c {
            r.append(by);
        } else {
            r.push(v[i]);
        }
        i += 1;
    }
    proof {
        assert(v@.take(v@.len() as int) =~= v@);
    }
    r
}

// ---------------------------------------------------------------------------
// Size in UTF-8
// ---------------------------------------------------------------------------

/// The number of bytes of a character in UTF-8.
pub open spec fn width(c: char) -> nat {
    let n = c as u32;
    if n < 0x80 {
        1
    } else if n < 0x800 {
        2
    } else if n < 0x10000 {
        3
    } else {
        4
    }
}

/// The number of bytes of a text in UTF-8.
pub open spec fn byte_len(s: Seq<char>) -> nat
    decreases s.len(),
{
    if s.len() == 0 {
        0
    } else {
        byte_len(s.drop_last()) + width(s.last())
    }
}

/// `byte_len` counts the bytes of the encoded text.
pub proof fn lemma_byte_len(s: Seq<char>)
    ensures
        byte_len(s) == encode_utf8(s).len(),
    decreases s.len(),
{
    if s.len() > 0 {
        lemma_byte_len(s.drop_last());
        lemma_encode_push(s.drop_last(), s.last());
        assert(s.drop_last().push(s.last()) =~= s);
    }
}

proof fn lemma_encode_push(s: Seq<char>, c: char)
    ensures
        encode_utf8(s.push(c)).len() == encode_utf8(s).len() + width(c),
    decreases s.len(),
{
    reveal_with_fuel(encode_utf8, 2);
    if s.len() == 0 {
        assert(s.push(c).drop_first() =~= Seq::<char>::empty());
        assert(s.push(c)[0] == c);
    } else {
        lemma_encode_push(s.drop_first(), c);
        assert(s.push(c).drop_first() =~= s.drop_first().push(c));
    }
}

/// The number of bytes of a character in UTF-8.
fn char_width(c: char) -> (r: usize)
    ensures
        r == width(c),
{
    let n: u32 = c as u32;
    if n < 0x80 {
        1
    } else if n < 0x800 {
        2
    } else if n < 0x10000 {
        3
    } else {
        4
    }
}

/// Whether a text has two characters or more.
pub fn two_chars_or_more(s: &str) -> (r: bool)
    ensures
        r == (s@.len() >= 2),
{
    chars_of(s).len() >= 2
}

/// Whether a text takes two bytes or more in UTF-8.
pub fn two_bytes_or_more(s: &str) -> (r: bool)
    ensures
        r == (byte_len(s@) >= 2),
{
    let v = chars_of(s);
    proof {
        reveal_with_fuel(byte_len, 3);
    }
    v.len() >= 2 || (v.len() == 1 && v[0] as u32 >= 0x80)
}

/// Whether a text takes more than `n` bytes in UTF-8.
pub fn longer_than(s: &str, n: usize) -> (r: bool)
    ensures
        r == (byte_len(s@) > n),
{
    proof {
        lemma_byte_len(s@);
    }
    s.as_bytes().len() > n
}

/// The first `n` bytes of a text, where they end with a character; else the
/// whole text.
pub open spec fn first_bytes(s: Seq<char>, n: nat) -> Seq<char> {
    if exists|k: int| 0 <= k <= s.len() && byte_len(#[trigger] s.take(k)) == n {
        s.take(choose|k: int| 0 <= k <= s.len() && byte_len(#[trigger] s.take(k)) == n)
    } else {
        s
    }
}

/// Longer prefixes take more bytes.
proof fn lemma_byte_len_grows(s: Seq<char>, j: int, k: int)
    requires
        0 <= j < k <= s.len(),
    ensures
        byte_len(s.take(j)) < byte_len(s.take(k)),
    decreases k,
{
    assert(s.take(k).drop_last() =~= s.take(k - 1));
    if j < k - 1 {
        lemma_byte_len_grows(s, j, k - 1);
    }
}

/// Cuts a text after `n` bytes, where a character ends there.
pub fn cut_bytes(s: &str, n: usize) -> (r: String)
    ensures
        r@ == first_bytes(s@, n as nat),
{
    let v = chars_of(s);
    let mut k: usize = 0;
    let limit: u128 = n as u128;
    let mut used: u128 = 0;
    proof {
        assert(v@.take(0) =~= Seq::<char>::empty());
    }
    while k < v.len() && used < limit
        invariant
            limit == n,
            k <= v.len(),
            used <= n + 4,
            used == byte_len(v@.take(k as int)),
            k > 0 ==> byte_len(v@.take(k - 1)) < n,
        decreases v.len() - k,
    {
        proof {
            assert(v@.take(k + 1).drop_last() =~= v@.take(k as int));
        }
        used += char_width(v[k]) as u128;
        k += 1;
    }
    proof {
        assert forall|j: int|
            0 <= j <= v@.len() && byte_len(#[trigger] v@.take(j)) == n implies j == k
            && used == n by {
            if j < k {
                if j < k - 1 {
                    lemma_byte_len_grows(v@, j, k - 1);
                }
            } else if k < j {
                lemma_byte_len_grows(v@, k as int, j);
            }
        }
    }
    if used == limit {
        proof {
            assert(byte_len(v@.take(k as int)) == n);
            assert(v@.take(k as int) =~= v@.subrange(0, k as int));
        }
        slice_string(&v, 0, k)
    } else {
        s.to_owned()
    }
}

// ---------------------------------------------------------------------------
// Order
// ---------------------------------------------------------------------------

/// Lexicographic order by code point, the order of `str`.
pub open spec fn text_le(a: Seq<char>, b: Seq<char>) -> bool
    decreases a.len(),
{
    if a.len() == 0 {
        true
    } else if b.len() == 0 {
        false
    } else if a[0] != b[0] {
        a[0] < b[0]
    } else {
        text_le(a.drop_first(), b.drop_first())
    }
}

/// Compares two texts.
pub fn le(a: &str, b: &str) -> (r: bool)
    ensures
        r == text_le(a@, b@),
{
    let x = chars_of(a);
    let y = chars_of(b);
    let mut i: usize = 0;
    proof {
        assert(x@.skip(0) =~= x@);
        assert(y@.skip(0) =~= y@);
    }
    while i < x.len() && i < y.len() && x[i] == y[i]
        invariant
            i <= x.len(),
            i <= y.len(),
            text_le(x@, y@) == text_le(x@.skip(i as int), y@.skip(i as int)),
        decreases x.len() - i,
    {
        proof {
            assert(x@.skip(i as int).drop_first() =~= x@.skip(i + 1));
            assert(y@.skip(i as int).drop_first() =~= y@.skip(i + 1));
        }
        i += 1;
    }
    if i >= x.len() {
        true
    } else if i >= y.len() {
        false
    } else {
        x[i] < y[i]
    }
}

/// Every text comes before itself or at its place.
pub proof fn lemma_text_le_reflexive(a: Seq<char>)
    ensures
        text_le(a, a),
    decreases a.len(),
{
    if a.len() > 0 {
        lemma_text_le_reflexive(a.drop_first());
    }
}

/// Of two texts one comes first or they are the same.
pub proof fn lemma_text_le_total(a: Seq<char>, b: Seq<char>)
    ensures
        text_le(a, b) || text_le(b, a),
    decreases a.len(),
{
    if a.len() > 0 && b.len() > 0 && a[0] == b[0] {
        lemma_text_le_total(a.drop_first(), b.drop_first());
    }
}

/// The order of texts is transitive.
pub proof fn lemma_text_le_transitive(a: Seq<char>, b: Seq<char>, c: Seq<char>)
    requires
        text_le(a, b),
        text_le(b, c),
    ensures
        text_le(a, c),
    decreases a.len(),
{
    if a.len() > 0 && b.len() > 0 && c.len() > 0 && a[0] == b[0] && b[0] == c[0] {
        lemma_text_le_transitive(a.drop_first(), b.drop_first(), c.drop_first());
    }
}

/// Texts that come before each other are the same.
pub proof fn lemma_text_le_antisymmetric(a: Seq<char>, b: Seq<char>)
    requires
        text_le(a, b),
        text_le(b, a),
    ensures
        a == b,
    decreases a.len(),
{
    if a.len() == 0 || b.len() == 0 {
        assert(a =~= b);
    } else {
        lemma_text_le_antisymmetric(a.drop_first(), b.drop_first());
        assert(a =~= seq![a[0]] + a.drop_first());
        assert(b =~= seq![b[0]] + b.drop_first());
    }
}

// ---------------------------------------------------------------------------
// Decimal notation
// ---------------------------------------------------------------------------

/// The character of a decimal digit.
pub open spec fn digit(d: nat) -> char {
    ((48 + d) as u32) as char
}

/// A natural number in decimal notation.
pub open spec fn decimal(n: nat) -> Seq<char>
    decreases n,
{
    if n < 10 {
        seq![digit(n)]
    } else {
        decimal(n / 10).push(digit(n % 10))
    }
}

/// The text with zeros in front, up to `width` characters.
pub open spec fn zero_padded(s: Seq<char>, width: nat) -> Seq<char> {
    if s.len() >= width {
        s
    } else {
        Seq::new((width - s.len()) as nat, |i: int| '0') + s
    }
}

/// An integer in decimal notation over at least `width` characters, with
/// zeros between the sign and the digits.
pub open spec fn decimal_width(n: int, width: nat) -> Seq<char> {
    if n < 0 {
        seq!['-'] + zero_padded(decimal((-n) as nat), (width - 1) as nat)
    } else {
        zero_padded(decimal(n as nat), width)
    }
}

fn digit_char(d: u64) -> (c: char)
    requires
        d < 10,
    ensures
        c == digit(d as nat),
{
    match d {
        0 => '0',
        1 => '1',
        2 => '2',
        3 => '3',
        4 => '4',
        5 => '5',
        6 => '6',
        7 => '7',
        8 => '8',
        _ => '9',
    }
}

/// Writes a natural number in decimal notation.
pub fn decimal_u64(n: u64) -> (r: String)
    ensures
        r@ == decimal(n as nat),
    decreases n,
{
    if n < 10 {
        let mut r = String::new();
        r.push(digit_char(n));
        proof {
            assert(r@ =~= decimal(n as nat));
        }
        r
    } else {
        let mut r = decimal_u64(n / 10);
        r.push(digit_char(n % 10));
        r
    }
}

/// The magnitude of an integer.
fn magnitude(n: i64) -> (r: u64)
    ensures
        r == if n < 0 {
            -n
        } else {
            n as int
        },
{
    if n >= 0 {
        n as u64
    } else {
        (-(n + 1)) as u64 + 1
    }
}

/// Writes an integer over at least `width` characters.
pub fn decimal_i64_width(n: i64, width: usize) -> (r: String)
    requires
        width >= 1,
    ensures
        r@ == decimal_width(n as int, width as nat),
{
    let body = decimal_u64(magnitude(n));
    let mut r = String::new();
    let mut want: usize = width;
    if n < 0 {
        r.push('-');
        want -= 1;
    }
    let ghost sign = r@;
    let have: usize = body.as_str().unicode_len();
    let mut i: usize = have;
    while i < want
        invariant
            have <= i,
            i <= want || i == have,
            r@ == sign + Seq::new((i - have) as nat, |k: int| '0'),
        decreases want - i,
    {
        r.push('0');
        i += 1;
        proof {
            assert(r@ =~= sign + Seq::new((i - have) as nat, |k: int| '0'));
        }
    }
    r.append(body.as_str());
    proof {
        assert(r@ =~= decimal_width(n as int, width as nat));
    }
    r
}

/// The value of a sequence of decimal digits; nothing where it is empty or
/// holds something else.
pub open spec fn digits_value(s: Seq<char>) -> Option<nat>
    decreases s.len(),
{
    if s.len() == 0 || !('0' <= s.last() <= '9') {
        None
    } else {
        let d = (s.last() as u32 - 48) as nat;
        if s.len() == 1 {
            Some(d)
        } else {
            match digits_value(s.drop_last()) {
                Some(v) => Some((10 * v + d) as nat),
                None => None,
            }
        }
    }
}

/// The integer that a text denotes: decimal digits after an optional sign.
pub open spec fn int_value(s: Seq<char>) -> Option<int> {
    if s.len() > 0 && s[0] == '-' {
        match digits_value(s.drop_first()) {
            Some(v) => Some(-(v as int)),
            None => None,
        }
    } else if s.len() > 0 && s[0] == '+' {
        match digits_value(s.drop_first()) {
            Some(v) => Some(v as int),
            None => None,
        }
    } else {
        match digits_value(s) {
            Some(v) => Some(v as int),
            None => None,
        }
    }
}

/// The `i64` that a text denotes, where it denotes one.
pub open spec fn i64_value(s: Seq<char>) -> Option<int> {
    match int_value(s) {
        Some(v) => if i64::MIN <= v <= i64::MAX {
            Some(v)
        } else {
            None
        },
        None => None,
    }
}

/// A digit is written as the character that many places after zero.
proof fn lemma_digit(d: nat)
    requires
        d < 10,
    ensures
        '0' <= digit(d) <= '9',
        digit(d) as u32 - 48 == d,
{
}

/// A number is read back from its digits.
pub proof fn lemma_decimal_value(n: nat)
    ensures
        digits_value(decimal(n)) == Some(n),
        decimal(n).len() > 0,
        forall|i: int| 0 <= i < decimal(n).len() ==> '0' <= #[trigger] decimal(n)[i] <= '9',
    decreases n,
{
    if n < 10 {
        lemma_digit(n);
    } else {
        lemma_digit(n % 10);
        lemma_decimal_value(n / 10);
        assert(decimal(n).drop_last() =~= decimal(n / 10));
    }
}

proof fn lemma_zeros_value(zeros: Seq<char>)
    requires
        zeros.len() > 0,
        forall|i: int| 0 <= i < zeros.len() ==> #[trigger] zeros[i] == '0',
    ensures
        digits_value(zeros) == Some(0nat),
    decreases zeros.len(),
{
    if zeros.len() > 1 {
        lemma_zeros_value(zeros.drop_last());
    }
}

proof fn lemma_padded_value(zeros: Seq<char>, s: Seq<char>)
    requires
        digits_value(s) is Some,
        forall|i: int| 0 <= i < zeros.len() ==> #[trigger] zeros[i] == '0',
    ensures
        digits_value(zeros + s) == digits_value(s),
    decreases s.len(),
{
    let t = zeros + s;
    if zeros.len() == 0 {
        assert(t =~= s);
    } else {
        assert(t.drop_last() =~= zeros + s.drop_last());
        if s.len() == 1 {
            assert(t.drop_last() =~= zeros);
            lemma_zeros_value(zeros);
        } else {
            lemma_padded_value(zeros, s.drop_last());
        }
    }
}

/// A number comes back when it is written over any width and read again.
pub proof fn law_decimal_round_trip(n: int, width: nat)
    requires
        width > 0,
    ensures
        int_value(decimal_width(n, width)) == Some(n),
{
    let m: nat = if n < 0 {
        (-n) as nat
    } else {
        n as nat
    };
    let w: nat = if n < 0 {
        (width - 1) as nat
    } else {
        width
    };
    let body = zero_padded(decimal(m), w);
    lemma_decimal_value(m);
    lemma_unsigned(m, w);
    if decimal(m).len() < w {
        let zeros = Seq::new((w - decimal(m).len()) as nat, |i: int| '0');
        lemma_padded_value(zeros, decimal(m));
    }
    if n < 0 {
        assert(decimal_width(n, width).drop_first() =~= body);
    }
}

/// What is not negative is written in digits alone.
pub proof fn lemma_unsigned(n: nat, width: nat)
    ensures
        zero_padded(decimal(n), width).len() > 0,
        forall|i: int|
            0 <= i < zero_padded(decimal(n), width).len() ==> '0' <= #[trigger] zero_padded(
                decimal(n),
                width,
            )[i] <= '9',
{
    lemma_decimal_value(n);
}

/// A longer run of digits denotes at least as much.
proof fn lemma_digits_grow(s: Seq<char>, k: int)
    requires
        0 < k <= s.len(),
        digits_value(s) is Some,
    ensures
        digits_value(s.take(k)) is Some,
        digits_value(s.take(k))->0 <= digits_value(s)->0,
    decreases s.len(),
{
    if k == s.len() {
        assert(s.take(k) =~= s);
    } else {
        lemma_digits_grow(s.drop_last(), k);
        assert(s.drop_last().take(k) =~= s.take(k));
    }
}

/// The value of a run of digits, where it is one and fits.
fn parse_digits(v: &Vec<char>, from: usize) -> (r: Option<u128>)
    requires
        from <= v.len(),
    ensures
        match r {
            Some(x) => digits_value(v@.skip(from as int)) == Some(x as nat) && x <= u64::MAX,
            None => digits_value(v@.skip(from as int)) is None || digits_value(
                v@.skip(from as int),
            )->0 > u64::MAX,
        },
{
    let ghost s = v@.skip(from as int);
    if from == v.len() {
        return None;
    }
    let mut acc: u128 = 0;
    let mut i: usize = from;
    while i < v.len()
        invariant
            from <= i <= v.len(),
            from < v.len(),
            s == v@.skip(from as int),
            acc <= u64::MAX,
            i == from ==> acc == 0,
            i > from ==> digits_value(s.take(i - from)) == Some(acc as nat),
        decreases v.len() - i,
    {
        let c = v[i];
        proof {
            assert(s.take(i + 1 - from).drop_last() =~= s.take(i - from));
            assert(s.take(i + 1 - from).last() == c);
            if digits_value(s) is Some {
                lemma_digits_grow(s, i + 1 - from);
            }
        }
        if !('0' <= c && c <= '9') {
            return None;
        }
        acc = acc * 10 + (c as u32 - 48) as u128;
        if acc > 0xffff_ffff_ffff_ffffu128 {
            return None;
        }
        i += 1;
    }
    proof {
        assert(s.take(s.len() as int) =~= s);
    }
    Some(acc)
}

/// Reads an `i64` in decimal notation.
pub fn parse_i64(s: &str) -> (r: Option<i64>)
    ensures
        match r {
            Some(x) => i64_value(s@) == Some(x as int),
            None => i64_value(s@) is None,
        },
{
    let v = chars_of(s);
    let negative = v.len() > 0 && v[0] == '-';
    let from: usize = if negative || (v.len() > 0 && v[0] == '+') {
        1
    } else {
        0
    };
    proof {
        assert(v@.skip(0) =~= v@);
        if v.len() > 0 {
            assert(v@.skip(1) =~= v@.drop_first());
        }
    }
    match parse_digits(&v, from) {
        None => None,
        Some(x) => {
            if negative {
                if x <= 0x8000_0000_0000_0000u128 {
                    Some((-(x as i128)) as i64)
                } else {
                    None
                }
            } else if x <= 0x7fff_ffff_ffff_ffffu128 {
                Some(x as i64)
            } else {
                None
            }
        },
    }
}

// ---------------------------------------------------------------------------
// What the operations on texts keep
// ---------------------------------------------------------------------------

proof fn lemma_trim_start(s: Seq<char>)
    ensures
        trim_start(s).len() <= s.len(),
        trim_start(s) == s.skip(s.len() - trim_start(s).len()),
        forall|i: int|
            0 <= i < s.len() - trim_start(s).len() ==> is_white(#[trigger] s[i]),
        trim_start(s).len() > 0 ==> !is_white(trim_start(s)[0]),
    decreases s.len(),
{
    if s.len() > 0 && is_white(s[0]) {
        let t = s.drop_first();
        lemma_trim_start(t);
        assert(t.skip(t.len() - trim_start(t).len()) =~= s.skip(s.len() - trim_start(s).len()));
        assert forall|i: int| 0 <= i < s.len() - trim_start(s).len() implies is_white(
            #[trigger] s[i],
        ) by {
            if i > 0 {
                assert(s[i] == t[i - 1]);
            }
        }
    } else {
        assert(s.skip(0) =~= s);
    }
}

proof fn lemma_trim_end(s: Seq<char>)
    ensures
        trim_end(s).len() <= s.len(),
        trim_end(s) == s.take(trim_end(s).len() as int),
        forall|i: int| trim_end(s).len() <= i < s.len() ==> is_white(#[trigger] s[i]),
        trim_end(s).len() > 0 ==> !is_white(trim_end(s).last()),
    decreases s.len(),
{
    if s.len() > 0 && is_white(s.last()) {
        let t = s.drop_last();
        lemma_trim_end(t);
        assert(t.take(trim_end(t).len() as int) =~= s.take(trim_end(s).len() as int));
        assert forall|i: int| trim_end(s).len() <= i < s.len() implies is_white(
            #[trigger] s[i],
        ) by {
            if i < t.len() {
                assert(s[i] == t[i]);
            }
        }
    } else {
        assert(s.take(s.len() as int) =~= s);
    }
}

/// Trimming cuts a text out of itself: what is cut off is white, and what stays
/// neither starts nor ends with white space.
pub proof fn law_trimmed(s: Seq<char>)
    ensures
        exists|a: int, b: int|
            {
                &&& 0 <= a <= b <= s.len()
                &&& trimmed(s) == #[trigger] s.subrange(a, b)
                &&& forall|i: int| 0 <= i < a ==> is_white(#[trigger] s[i])
                &&& forall|i: int| b <= i < s.len() ==> is_white(#[trigger] s[i])
            },
        trimmed(s).len() > 0 ==> !is_white(trimmed(s)[0]) && !is_white(trimmed(s).last()),
{
    let t = trim_start(s);
    lemma_trim_start(s);
    lemma_trim_end(t);
    let a = s.len() - t.len();
    let b = a + trimmed(s).len();
    assert(trimmed(s) =~= s.subrange(a, b));
    assert forall|i: int| b <= i < s.len() implies is_white(#[trigger] s[i]) by {
        assert(s[i] == t[i - a]);
    }
    if trimmed(s).len() > 0 {
        assert(trimmed(s)[0] == t[0]);
    }
}

/// Cutting off trailing characters leaves the rest as it is, and none of them
/// at its end.
pub proof fn law_without_trailing(s: Seq<char>, c: char)
    ensures
        without_trailing(s, c).len() <= s.len(),
        without_trailing(s, c) == s.take(without_trailing(s, c).len() as int),
        forall|i: int| without_trailing(s, c).len() <= i < s.len() ==> #[trigger] s[i] == c,
        without_trailing(s, c).len() > 0 ==> without_trailing(s, c).last() != c,
    decreases s.len(),
{
    if s.len() > 0 && s.last() == c {
        let t = s.drop_last();
        law_without_trailing(t, c);
        assert(t.take(without_trailing(t, c).len() as int) =~= s.take(
            without_trailing(s, c).len() as int,
        ));
        assert forall|i: int| without_trailing(s, c).len() <= i < s.len() implies #[trigger] s[i]
            == c by {
            if i < t.len() {
                assert(s[i] == t[i]);
            }
        }
    } else {
        assert(s.take(s.len() as int) =~= s);
    }
}

proof fn lemma_joined_last(pieces: Seq<Seq<char>>, sep: Seq<char>, tail: Seq<char>)
    requires
        pieces.len() > 0,
    ensures
        joined(pieces.drop_last().push(pieces.last() + tail), sep) == joined(pieces, sep) + tail,
{
    let more = pieces.drop_last().push(pieces.last() + tail);
    assert(more.drop_last() =~= pieces.drop_last());
    if pieces.len() > 1 {
        assert(joined(more, sep) =~= joined(pieces, sep) + tail);
    }
}

/// Splitting loses nothing: the pieces, joined again, are the text, and no piece
/// holds the separator.
pub proof fn law_split(s: Seq<char>, c: char)
    ensures
        joined(split_pieces(s, Separator::Char(c)), seq![c]) == s,
        forall|k: int|
            0 <= k < split_pieces(s, Separator::Char(c)).len() ==> !(#[trigger] split_pieces(
                s,
                Separator::Char(c),
            )[k]).contains(c),
    decreases s.len(),
{
    let sep = Separator::Char(c);
    lemma_split_clean(s, c);
    if s.len() > 0 {
        law_split(s.drop_last(), c);
        lemma_split_nonempty(s.drop_last(), sep);
        let before = split_pieces(s.drop_last(), sep);
        if s.last() == c {
            let pieces = before.push(Seq::<char>::empty());
            assert(pieces.drop_last() =~= before);
            assert(joined(pieces, seq![c]) =~= s);
        } else {
            lemma_joined_last(before, seq![c], seq![s.last()]);
            assert(before.last() + seq![s.last()] =~= before.last().push(s.last()));
            assert(s.drop_last() + seq![s.last()] =~= s);
        }
    }
}

/// Exactly the pieces that are not empty stay, in their order.
pub proof fn law_non_empty(pieces: Seq<Seq<char>>)
    ensures
        non_empty(pieces) == pieces.filter(|p: Seq<char>| p.len() > 0),
    decreases pieces.len(),
{
    reveal(Seq::filter);
    if pieces.len() > 0 {
        law_non_empty(pieces.drop_last());
    }
}

/// A replaced character gives way to its replacement; what stands around it is
/// treated on its own.
pub proof fn law_replaced(a: Seq<char>, c: char, b: Seq<char>, by: Seq<char>)
    ensures
        replaced(a + seq![c] + b, c, by) == replaced(a, c, by) + by + replaced(b, c, by),
        !a.contains(c) ==> replaced(a, c, by) == a,
    decreases a.len() + b.len(),
{
    if !a.contains(c) && a.len() > 0 {
        let t = a.drop_last();
        assert(a.contains(a.last()));
        assert(!t.contains(c)) by {
            if t.contains(c) {
                let i = choose|i: int| 0 <= i < t.len() && t[i] == c;
                assert(a[i] == c);
            }
        }
        law_replaced(t, c, Seq::empty(), by);
        assert(t.push(a.last()) =~= a);
    }
    let s = a + seq![c] + b;
    if b.len() == 0 {
        assert(s.drop_last() =~= a);
        assert(replaced(a, c, by) + by + replaced(b, c, by) =~= replaced(a, c, by) + by);
    } else {
        law_replaced(a, c, b.drop_last(), by);
        assert(s.drop_last() =~= a + seq![c] + b.drop_last());
        assert(replaced(s, c, by) =~= replaced(a, c, by) + by + replaced(b, c, by));
    }
}

/// The first bytes of a text are a start of it with just so many bytes; where no
/// start has so many, they are the whole text.
pub proof fn law_first_bytes(s: Seq<char>, n: nat)
    ensures
        has_prefix(s, first_bytes(s, n)),
        byte_len(first_bytes(s, n)) == n || (first_bytes(s, n) == s && forall|k: int|
            0 <= k <= s.len() ==> byte_len(#[trigger] s.take(k)) != n),
{
    if exists|k: int| 0 <= k <= s.len() && byte_len(#[trigger] s.take(k)) == n {
        let k = choose|k: int| 0 <= k <= s.len() && byte_len(#[trigger] s.take(k)) == n;
        assert(s.subrange(0, k) =~= s.take(k));
    } else {
        assert(s.subrange(0, s.len() as int) =~= s);
    }
}

/// Letters from A to Z become small, and nothing else changes.
pub proof fn law_lowered(s: Seq<char>)
    ensures
        lowered(s).len() == s.len(),
        forall|i: int|
            0 <= i < s.len() ==> if 'A' <= #[trigger] s[i] <= 'Z' {
                lowered(s)[i] as u32 == s[i] as u32 + 32
            } else {
                lowered(s)[i] == s[i]
            },
        lowered(lowered(s)) == lowered(s),
{
    assert(lowered(lowered(s)) =~= lowered(s));
}

/// A search without regard to case finds what it finds in small letters; asked
/// for nothing, it finds it everywhere, and every text holds itself.
pub proof fn law_occurs_nocase(hay: Seq<char>, needle: Seq<char>)
    ensures
        occurs_nocase(hay, needle) <==> exists|i: int|
            {
                &&& 0 <= i <= hay.len() - needle.len()
                &&& lowered(#[trigger] hay.subrange(i, i + needle.len())) == lowered(needle)
            },
        occurs_nocase(hay, needle) == occurs_nocase(lowered(hay), lowered(needle)),
        needle.len() == 0 ==> occurs_nocase(hay, needle),
        occurs_nocase(hay, hay),
{
    law_lowered(hay);
    law_lowered(needle);
    assert forall|i: int| 0 <= i <= hay.len() - needle.len() implies lowered(
        #[trigger] hay.subrange(i, i + needle.len()),
    ) == lowered(hay).subrange(i, i + needle.len()) by {
        assert(lowered(hay.subrange(i, i + needle.len())) =~= lowered(hay).subrange(
            i,
            i + needle.len(),
        ));
    }
    if occurs_nocase(hay, needle) {
        let i = choose|i: int| occurs_at(lowered(hay), lowered(needle), i);
        assert(lowered(hay.subrange(i, i + needle.len())) == lowered(needle));
    }
    if exists|i: int|
        {
            &&& 0 <= i <= hay.len() - needle.len()
            &&& lowered(#[trigger] hay.subrange(i, i + needle.len())) == lowered(needle)
        } {
        let i = choose|i: int|
            {
                &&& 0 <= i <= hay.len() - needle.len()
                &&& lowered(#[trigger] hay.subrange(i, i + needle.len())) == lowered(needle)
            };
        assert(occurs_at(lowered(hay), lowered(needle), i));
    }
    if needle.len() == 0 {
        assert(lowered(hay).subrange(0, 0) =~= lowered(needle));
        assert(occurs_at(lowered(hay), lowered(needle), 0));
    }
    assert(lowered(hay).subrange(0, hay.len() as int) =~= lowered(hay));
    assert(occurs_at(lowered(hay), lowered(hay), 0));
}

/// Texts are ordered by the first character in which they differ, and a text
/// stands before those that it starts.
pub proof fn law_text_order(start: Seq<char>, a: char, x: Seq<char>, b: char, y: Seq<char>)
    ensures
        a != b ==> text_le(start + seq![a] + x, start + seq![b] + y) == (a < b),
        text_le(start, start + seq![a] + x),
        !text_le(start + seq![a] + x, start),
    decreases start.len(),
{
    let s = start + seq![a] + x;
    let t = start + seq![b] + y;
    if start.len() > 0 {
        let rest = start.drop_first();
        law_text_order(rest, a, x, b, y);
        assert(s.drop_first() =~= rest + seq![a] + x);
        assert(t.drop_first() =~= rest + seq![b] + y);
        assert(s[0] == start[0] && t[0] == start[0]);
    } else {
        assert(s[0] == a && t[0] == b);
    }
}

/// A padded number is at least as wide as asked for, and never wider than it has
/// to be.
pub proof fn law_padded(s: Seq<char>, width: nat)
    ensures
        zero_padded(s, width).len() == if s.len() >= width {
            s.len()
        } else {
            width
        },
        zero_padded(s, width).skip(zero_padded(s, width).len() - s.len()) == s,
        forall|i: int|
            0 <= i < zero_padded(s, width).len() - s.len() ==> #[trigger] zero_padded(s, width)[i]
                == '0',
{
    let p = zero_padded(s, width);
    assert(p.skip(p.len() - s.len()) =~= s);
}

/// What is joined starts with its first piece.
pub proof fn lemma_joined_prefix(pieces: Seq<Seq<char>>, sep: Seq<char>)
    requires
        pieces.len() > 0,
    ensures
        has_prefix(joined(pieces, sep), pieces[0]),
    decreases pieces.len(),
{
    let s = joined(pieces, sep);
    if pieces.len() == 1 {
        assert(s.subrange(0, pieces[0].len() as int) =~= pieces[0]);
    } else {
        lemma_joined_prefix(pieces.drop_last(), sep);
        let t = joined(pieces.drop_last(), sep);
        assert(s.subrange(0, pieces[0].len() as int) =~= t.subrange(0, pieces[0].len() as int));
    }
}

/// Blanks, tabs and line breaks are white; no other character of ASCII but the
/// vertical tab and the form feed is.
pub proof fn law_white(c: char)
    ensures
        is_white(' ') && is_white('\t') && is_white('\n') && is_white('\r'),
        is_white(c) && (c as u32) < 0x80 ==> c == ' ' || 0x9 <= c as u32 <= 0xd,
{
}

/// A text starts with another exactly where it is that one and something behind
/// it.
pub proof fn law_has_prefix(s: Seq<char>, prefix: Seq<char>, rest: Seq<char>)
    ensures
        has_prefix(prefix + rest, prefix),
        has_prefix(s, prefix) ==> s == prefix + s.skip(prefix.len() as int),
{
    assert((prefix + rest).subrange(0, prefix.len() as int) =~= prefix);
    if has_prefix(s, prefix) {
        let n = prefix.len() as int;
        assert(s.subrange(0, n) == prefix);
        assert(s =~= s.subrange(0, n) + s.skip(n));
    }
}

/// A text stands in another exactly where that one is something before it, the
/// text, and something behind it.
pub proof fn law_occurs(hay: Seq<char>, needle: Seq<char>, before: Seq<char>, behind: Seq<char>)
    ensures
        occurs(before + needle + behind, needle),
        occurs(hay, needle) ==> exists|i: int|
            0 <= i <= hay.len() && hay == #[trigger] hay.take(i) + needle + hay.skip(
                i + needle.len(),
            ),
{
    let whole = before + needle + behind;
    let n = before.len() as int;
    assert(whole.subrange(n, n + needle.len()) =~= needle);
    assert(occurs_at(whole, needle, n));
    if occurs(hay, needle) {
        let i = choose|i: int| occurs_at(hay, needle, i);
        assert(hay.subrange(i, i + needle.len()) == needle);
        assert(hay =~= hay.take(i) + hay.subrange(i, i + needle.len()) + hay.skip(
            i + needle.len(),
        ));
    }
}

/// A number that fits is read back from its digits; one that does not is none.
pub proof fn law_i64_value(n: int, width: nat)
    requires
        width > 0,
    ensures
        i64::MIN <= n <= i64::MAX ==> i64_value(decimal_width(n, width)) == Some(n),
        n < i64::MIN || n > i64::MAX ==> i64_value(decimal_width(n, width)) is None,
{
    law_decimal_round_trip(n, width);
}

/// An ended line is one line, whichever way it is ended; an empty text has none.
pub proof fn law_lines(line: Seq<char>)
    requires
        !line.contains('\n'),
        !line.contains('\r'),
    ensures
        lines_of(line + seq!['\n']) == seq![line],
        lines_of(line + seq!['\r', '\n']) == seq![line],
        line.len() > 0 ==> lines_of(line) == seq![line],
        lines_of(Seq::empty()).len() == 0,
{
    let none = Seq::<char>::empty();
    let br = Separator::Char('\n');
    assert(split_pieces(none, br) =~= Seq::<Seq<char>>::empty().push(none));
    lemma_split_ended(none, Seq::empty(), line);
    assert((none + line).push('\n') =~= line + seq!['\n']);
    let p1 = Seq::<Seq<char>>::empty().push(line).push(none);
    assert(p1.drop_last() =~= seq![line]);
    if line.len() > 0 {
        assert(line.contains(line.last()));
    }
    assert(without_return(line) == line);
    assert(lines_of(line + seq!['\n']) =~= seq![line]);
    let back = line.push('\r');
    assert(!back.contains('\n')) by {
        if back.contains('\n') {
            let i = choose|i: int| 0 <= i < back.len() && back[i] == '\n';
            assert(line[i] == '\n');
        }
    }
    lemma_split_ended(none, Seq::empty(), back);
    assert((none + back).push('\n') =~= line + seq!['\r', '\n']);
    let p2 = Seq::<Seq<char>>::empty().push(back).push(none);
    assert(p2.drop_last() =~= seq![back]);
    assert(without_return(back) =~= line);
    assert(lines_of(line + seq!['\r', '\n']) =~= seq![line]);
    lemma_first_piece(line, '\n', none);
    if line.len() > 0 {
        assert(seq![line].drop_last() =~= Seq::<Seq<char>>::empty());
        assert(lines_of(line) =~= seq![line]);
    }
    assert(lines_of(none) =~= Seq::<Seq<char>>::empty());
}

proof fn lemma_split_unseparated(s: Seq<char>, sep: Separator)
    ensures
        forall|k: int, i: int|
            0 <= k < split_pieces(s, sep).len() && 0 <= i < split_pieces(s, sep)[k].len()
                ==> !separates(sep, #[trigger] split_pieces(s, sep)[k][i]),
    decreases s.len(),
{
    lemma_split_nonempty(s, sep);
    if s.len() > 0 {
        lemma_split_unseparated(s.drop_last(), sep);
        lemma_split_nonempty(s.drop_last(), sep);
        let before = split_pieces(s.drop_last(), sep);
        let pieces = split_pieces(s, sep);
        assert forall|k: int, i: int|
            0 <= k < pieces.len() && 0 <= i < pieces[k].len() implies !separates(
            sep,
            #[trigger] pieces[k][i],
        ) by {
            if k < before.len() - 1 {
                assert(pieces[k] == before[k]);
                assert(before[k][i] == pieces[k][i]);
            } else if k == before.len() - 1 {
                if i < before[k].len() {
                    assert(before[k][i] == pieces[k][i]);
                }
            }
        }
    }
}

/// The words of a text are words: none is empty, and none holds white space.
pub proof fn law_words(s: Seq<char>, k: int)
    requires
        0 <= k < words_of(s).len(),
    ensures
        is_word(words_of(s)[k]),
{
    let sep = Separator::Whitespace;
    let pieces = split_pieces(s, sep);
    lemma_split_unseparated(s, sep);
    law_non_empty(pieces);
    let keep = |p: Seq<char>| p.len() > 0;
    let words = pieces.filter(keep);
    assert(words == words_of(s));
    assert(words.contains(words[k]));
    pieces.lemma_filter_pred(keep, k);
    pieces.lemma_filter_contains_rev(keep, words[k]);
    let j = choose|j: int| 0 <= j < pieces.len() && pieces[j] == words[k];
    assert forall|i: int| 0 <= i < words[k].len() implies !is_white(#[trigger] words[k][i]) by {
        assert(pieces[j][i] == words[k][i]);
        assert(!separates(sep, pieces[j][i]));
    }
}

/// What strings hold is what they hold, one for one.
pub proof fn law_texts(v: Seq<String>, o: Option<String>, i: int)
    ensures
        texts(v).len() == v.len(),
        0 <= i < v.len() ==> texts(v)[i] == v[i]@,
        o matches Some(s) ==> opt_text(o) == Some(s@),
        o is None ==> opt_text(o) is None,
{
}

/// What is seen of values is seen of each, one for one.
pub proof fn law_views<T: View>(v: Seq<T>, i: int)
    ensures
        views(v).len() == v.len(),
        0 <= i < v.len() ==> views(v)[i] == v[i]@,
{
}

} // verus!
