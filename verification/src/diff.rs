//! The preview of a configuration change as a unified diff.

use crate::text;
use vstd::prelude::*;
use vstd::string::*;

verus! {

/// What happens to a line.
#[derive(Clone, Copy, PartialEq, Eq, Structural)]
pub enum Edit {
    /// The line stands in both texts.
    Keep,
    /// The line stands in the new text only.
    Add,
    /// The line stands in the old text only.
    Del,
}

/// A group of changes with the lines around them. Positions count from zero.
#[verifier::ext_equal]
pub struct Hunk {
    /// The first line of the old text.
    pub old_start: int,
    /// The first line of the new text.
    pub new_start: int,
    /// The lines, each with what happens to it.
    pub body: Seq<(Edit, Seq<char>)>,
}

/// How far two texts have been compared.
#[verifier::ext_equal]
pub struct Progress {
    /// Lines of the old text that are done with.
    pub i: int,
    /// Lines of the new text that are done with.
    pub j: int,
    /// Every line so far, with what happens to it.
    pub script: Seq<(Edit, Seq<char>)>,
    /// The finished hunks.
    pub done: Seq<Hunk>,
    /// The hunk to which changes are still added.
    pub open: Option<Hunk>,
    /// The kept lines at the end of the open hunk.
    pub trailing: int,
}

/// Whether `line` stands among the ten lines from `i` on.
pub open spec fn stands_soon(old: Seq<Seq<char>>, i: int, line: Seq<char>) -> bool {
    exists|k: int| i <= k < i + 10 && k < old.len() && #[trigger] old[k] == line
}

/// What happens next: a line that both texts have is kept; a line of the new
/// text that does not come up soon in the old one is added; else the line of
/// the old text is deleted.
pub open spec fn next_edit(old: Seq<Seq<char>>, new: Seq<Seq<char>>, i: int, j: int) -> Edit {
    if i < old.len() && j < new.len() && old[i] == new[j] {
        Edit::Keep
    } else if j < new.len() && (i >= old.len() || !stands_soon(old, i, new[j])) {
        Edit::Add
    } else {
        Edit::Del
    }
}

/// The first of the up to three lines before line `n`.
pub open spec fn context_start(n: int) -> int {
    if n >= 3 {
        n - 3
    } else {
        0
    }
}

/// A new hunk in front of line `i` of the old text, with up to three lines of
/// context.
pub open spec fn opened(old: Seq<Seq<char>>, i: int, j: int) -> Hunk {
    Hunk {
        old_start: context_start(i),
        new_start: context_start(j),
        body: Seq::new(
            (i - context_start(i)) as nat,
            |k: int| (Edit::Keep, old[context_start(i) + k]),
        ),
    }
}

/// The hunk with one more line.
pub open spec fn grown(h: Hunk, e: Edit, line: Seq<char>) -> Hunk {
    Hunk { body: h.body.push((e, line)), ..h }
}

/// The comparison one line further. A hunk is finished by three kept lines.
pub open spec fn advance(old: Seq<Seq<char>>, new: Seq<Seq<char>>, p: Progress) -> Progress {
    match next_edit(old, new, p.i, p.j) {
        Edit::Keep => {
            let line = old[p.i];
            let q = Progress {
                i: p.i + 1,
                j: p.j + 1,
                script: p.script.push((Edit::Keep, line)),
                ..p
            };
            match p.open {
                None => q,
                Some(h) => if p.trailing + 1 >= 3 {
                    Progress {
                        done: p.done.push(grown(h, Edit::Keep, line)),
                        open: None,
                        trailing: 0,
                        ..q
                    }
                } else {
                    Progress {
                        open: Some(grown(h, Edit::Keep, line)),
                        trailing: p.trailing + 1,
                        ..q
                    }
                },
            }
        },
        Edit::Add => {
            let h = match p.open {
                Some(h) => h,
                None => opened(old, p.i, p.j),
            };
            Progress {
                j: p.j + 1,
                script: p.script.push((Edit::Add, new[p.j])),
                open: Some(grown(h, Edit::Add, new[p.j])),
                trailing: 0,
                ..p
            }
        },
        Edit::Del => {
            let h = match p.open {
                Some(h) => h,
                None => opened(old, p.i, p.j),
            };
            Progress {
                i: p.i + 1,
                script: p.script.push((Edit::Del, old[p.i])),
                open: Some(grown(h, Edit::Del, old[p.i])),
                trailing: 0,
                ..p
            }
        },
    }
}

/// Whether lines are left to compare.
pub open spec fn unfinished(old: Seq<Seq<char>>, new: Seq<Seq<char>>, p: Progress) -> bool {
    0 <= p.i <= old.len() && 0 <= p.j <= new.len() && (p.i < old.len() || p.j < new.len())
}

/// The comparison carried to the end.
pub open spec fn completed(old: Seq<Seq<char>>, new: Seq<Seq<char>>, p: Progress) -> Progress
    decreases (old.len() - p.i) + (new.len() - p.j),
{
    if unfinished(old, new, p) {
        completed(old, new, advance(old, new, p))
    } else {
        p
    }
}

/// Nothing compared yet.
pub open spec fn at_start() -> Progress {
    Progress {
        i: 0,
        j: 0,
        script: Seq::empty(),
        done: Seq::empty(),
        open: None,
        trailing: 0,
    }
}

/// The lines of the old text among edited lines.
pub open spec fn old_side(body: Seq<(Edit, Seq<char>)>) -> Seq<Seq<char>>
    decreases body.len(),
{
    if body.len() == 0 {
        Seq::empty()
    } else if body.last().0 == Edit::Add {
        old_side(body.drop_last())
    } else {
        old_side(body.drop_last()).push(body.last().1)
    }
}

/// The lines of the new text among edited lines.
pub open spec fn new_side(body: Seq<(Edit, Seq<char>)>) -> Seq<Seq<char>>
    decreases body.len(),
{
    if body.len() == 0 {
        Seq::empty()
    } else if body.last().0 == Edit::Del {
        new_side(body.drop_last())
    } else {
        new_side(body.drop_last()).push(body.last().1)
    }
}

/// The added and deleted lines among edited lines.
pub open spec fn changes(body: Seq<(Edit, Seq<char>)>) -> Seq<(Edit, Seq<char>)>
    decreases body.len(),
{
    if body.len() == 0 {
        body
    } else if body.last().0 == Edit::Keep {
        changes(body.drop_last())
    } else {
        changes(body.drop_last()).push(body.last())
    }
}

/// The changes of several hunks, in order.
pub open spec fn all_changes(hunks: Seq<Hunk>) -> Seq<(Edit, Seq<char>)>
    decreases hunks.len(),
{
    if hunks.len() == 0 {
        Seq::empty()
    } else {
        all_changes(hunks.drop_last()) + changes(hunks.last().body)
    }
}

/// The edit script that turns `old` into `new`.
pub open spec fn edit_script(old: Seq<Seq<char>>, new: Seq<Seq<char>>) -> Seq<
    (Edit, Seq<char>),
> {
    completed(old, new, at_start()).script
}

/// The hunks of the diff between two texts.
pub open spec fn hunks_of(old: Seq<Seq<char>>, new: Seq<Seq<char>>) -> Seq<Hunk> {
    let p = completed(old, new, at_start());
    match p.open {
        Some(h) => p.done.push(h),
        None => p.done,
    }
}

// ---------------------------------------------------------------------------
// Notation
// ---------------------------------------------------------------------------

/// The character in front of an edited line.
pub open spec fn mark(e: Edit) -> Seq<char> {
    match e {
        Edit::Keep => " "@,
        Edit::Add => "+"@,
        Edit::Del => "-"@,
    }
}

/// The edited lines, each marked and ended by a line break.
pub open spec fn body_text(body: Seq<(Edit, Seq<char>)>) -> Seq<char>
    decreases body.len(),
{
    if body.len() == 0 {
        Seq::empty()
    } else {
        (body_text(body.drop_last()) + (mark(body.last().0) + body.last().1)).push('\n')
    }
}

/// A hunk: where it starts and how long it is on each side, then its lines.
pub open spec fn hunk_text(h: Hunk) -> Seq<char> {
    "@@ -"@ + text::decimal((h.old_start + 1) as nat) + ","@ + text::decimal(old_side(h.body).len())
        + " +"@ + text::decimal((h.new_start + 1) as nat) + ","@ + text::decimal(
        new_side(h.body).len(),
    ) + " @@\n"@ + body_text(h.body)
}

/// Hunks one after the other.
pub open spec fn hunks_text(hunks: Seq<Hunk>) -> Seq<char>
    decreases hunks.len(),
{
    if hunks.len() == 0 {
        Seq::empty()
    } else {
        hunks_text(hunks.drop_last()) + hunk_text(hunks.last())
    }
}

/// The unified diff of two texts; empty where they have the same lines.
pub open spec fn diff_text(old: Seq<char>, new: Seq<char>) -> Seq<char> {
    let o = text::lines_of(old);
    let n = text::lines_of(new);
    if o == n {
        Seq::empty()
    } else {
        "--- hearth.yaml (current)\n"@ + "+++ hearth.yaml (proposed)\n"@ + hunks_text(
            hunks_of(o, n),
        )
    }
}

// ---------------------------------------------------------------------------
// Laws
// ---------------------------------------------------------------------------

/// Whether the sides of a hunk are the stretches of the two texts that it
/// names.
pub open spec fn is_faithful(old: Seq<Seq<char>>, new: Seq<Seq<char>>, h: Hunk) -> bool {
    let o = old_side(h.body);
    let n = new_side(h.body);
    &&& 0 <= h.old_start && h.old_start + o.len() <= old.len()
    &&& 0 <= h.new_start && h.new_start + n.len() <= new.len()
    &&& o == old.subrange(h.old_start, h.old_start + o.len())
    &&& n == new.subrange(h.new_start, h.new_start + n.len())
}

/// What holds at every point of a comparison.
pub open spec fn on_track(old: Seq<Seq<char>>, new: Seq<Seq<char>>, p: Progress) -> bool {
    &&& 0 <= p.i <= old.len()
    &&& 0 <= p.j <= new.len()
    &&& old_side(p.script) == old.take(p.i)
    &&& new_side(p.script) == new.take(p.j)
    &&& forall|k: int| 0 <= k < p.done.len() ==> is_faithful(old, new, #[trigger] p.done[k])
    &&& match p.open {
        None => {
            &&& changes(p.script) == all_changes(p.done)
            &&& p.i - context_start(p.i) == p.j - context_start(p.j)
            &&& old.subrange(context_start(p.i), p.i) == new.subrange(context_start(p.j), p.j)
            &&& p.i < 3 ==> p.j == p.i
            &&& p.done.len() == 0 ==> p.i == p.j && old.take(p.i) == new.take(p.j)
        },
        Some(h) => {
            &&& changes(p.script) == all_changes(p.done) + changes(h.body)
            &&& is_faithful(old, new, h)
            &&& h.old_start + old_side(h.body).len() == p.i
            &&& h.new_start + new_side(h.body).len() == p.j
            &&& 0 <= p.trailing <= 2
            &&& p.trailing <= p.i - h.old_start
            &&& p.trailing <= p.j - h.new_start
            &&& forall|k: int|
                1 <= k <= p.trailing ==> #[trigger] old[p.i - k] == new[p.j - k]
        },
    }
}

/// One more edited line.
proof fn lemma_push(body: Seq<(Edit, Seq<char>)>, e: Edit, line: Seq<char>)
    ensures
        old_side(body.push((e, line))) == if e == Edit::Add {
            old_side(body)
        } else {
            old_side(body).push(line)
        },
        new_side(body.push((e, line))) == if e == Edit::Del {
            new_side(body)
        } else {
            new_side(body).push(line)
        },
        changes(body.push((e, line))) == if e == Edit::Keep {
            changes(body)
        } else {
            changes(body).push((e, line))
        },
        body_text(body.push((e, line))) == (body_text(body) + (mark(e) + line)).push('\n'),
{
    assert(body.push((e, line)).drop_last() =~= body);
}

/// Kept lines stand on both sides and change nothing.
proof fn lemma_kept(lines: Seq<Seq<char>>)
    ensures
        ({
            let body = Seq::new(lines.len(), |k: int| (Edit::Keep, lines[k]));
            &&& old_side(body) == lines
            &&& new_side(body) == lines
            &&& changes(body) == Seq::<(Edit, Seq<char>)>::empty()
        }),
    decreases lines.len(),
{
    let body = Seq::new(lines.len(), |k: int| (Edit::Keep, lines[k]));
    if lines.len() > 0 {
        let rest = lines.drop_last();
        lemma_kept(rest);
        assert(body.drop_last() =~= Seq::new(rest.len(), |k: int| (Edit::Keep, rest[k])));
        assert(lines =~= rest.push(lines.last()));
    } else {
        assert(old_side(body) =~= lines);
        assert(new_side(body) =~= lines);
    }
}

/// A new hunk is faithful and holds no change.
proof fn lemma_opened(old: Seq<Seq<char>>, new: Seq<Seq<char>>, p: Progress)
    requires
        on_track(old, new, p),
        p.open is None,
    ensures
        ({
            let h = opened(old, p.i, p.j);
            &&& is_faithful(old, new, h)
            &&& h.old_start + old_side(h.body).len() == p.i
            &&& h.new_start + new_side(h.body).len() == p.j
            &&& changes(h.body) == Seq::<(Edit, Seq<char>)>::empty()
        }),
{
    let h = opened(old, p.i, p.j);
    let context = old.subrange(context_start(p.i), p.i);
    lemma_kept(context);
    assert(h.body =~= Seq::new(context.len(), |k: int| (Edit::Keep, context[k])));
}

/// A faithful hunk that grows by the next line stays faithful.
proof fn lemma_grown(
    old: Seq<Seq<char>>,
    new: Seq<Seq<char>>,
    h: Hunk,
    i: int,
    j: int,
    e: Edit,
    line: Seq<char>,
)
    requires
        is_faithful(old, new, h),
        h.old_start + old_side(h.body).len() == i,
        h.new_start + new_side(h.body).len() == j,
        e != Edit::Add ==> i < old.len() && old[i] == line,
        e != Edit::Del ==> j < new.len() && new[j] == line,
    ensures
        is_faithful(old, new, grown(h, e, line)),
{
    lemma_push(h.body, e, line);
    if e != Edit::Add {
        assert(old.subrange(h.old_start, i + 1) =~= old.subrange(h.old_start, i).push(line));
    }
    if e != Edit::Del {
        assert(new.subrange(h.new_start, j + 1) =~= new.subrange(h.new_start, j).push(line));
    }
}

/// The changes of one more hunk.
proof fn lemma_changes_push(hunks: Seq<Hunk>, h: Hunk)
    ensures
        all_changes(hunks.push(h)) == all_changes(hunks) + changes(h.body),
        hunks_text(hunks.push(h)) == hunks_text(hunks) + hunk_text(h),
{
    assert(hunks.push(h).drop_last() =~= hunks);
}

/// Every step keeps the comparison on track.
proof fn lemma_advance(old: Seq<Seq<char>>, new: Seq<Seq<char>>, p: Progress)
    requires
        on_track(old, new, p),
        unfinished(old, new, p),
    ensures
        on_track(old, new, advance(old, new, p)),
{
    let q = advance(old, new, p);
    let e = next_edit(old, new, p.i, p.j);
    let line = if e == Edit::Add {
        new[p.j]
    } else {
        old[p.i]
    };
    lemma_push(p.script, e, line);
    if e != Edit::Add {
        assert(old.take(p.i + 1) =~= old.take(p.i).push(line));
    }
    if e != Edit::Del {
        assert(new.take(p.j + 1) =~= new.take(p.j).push(line));
    }
    match p.open {
        None => {
            if e == Edit::Keep {
                assert(old.subrange(context_start(q.i), q.i) =~= new.subrange(
                    context_start(q.j),
                    q.j,
                )) by {
                    assert forall|k: int| 0 <= k < q.i - context_start(q.i) implies old.subrange(
                        context_start(q.i),
                        q.i,
                    )[k] == new.subrange(context_start(q.j), q.j)[k] by {
                        let a = context_start(q.i) + k;
                        if a < p.i {
                            let b = a - context_start(p.i);
                            assert(old.subrange(context_start(p.i), p.i)[b] == old[a]);
                            assert(new.subrange(context_start(p.j), p.j)[b] == new[context_start(
                                q.j,
                            ) + k]);
                        }
                    }
                }
            } else {
                lemma_opened(old, new, p);
                let h = opened(old, p.i, p.j);
                lemma_grown(old, new, h, p.i, p.j, e, line);
                lemma_push(h.body, e, line);
                assert(changes(h.body).push((e, line)) =~= seq![(e, line)]);
                assert(changes(q.script) =~= all_changes(p.done) + seq![(e, line)]);
            }
        },
        Some(h) => {
            lemma_grown(old, new, h, p.i, p.j, e, line);
            lemma_push(h.body, e, line);
            let g = grown(h, e, line);
            if e == Edit::Keep {
                if p.trailing + 1 >= 3 {
                    lemma_changes_push(p.done, g);
                    assert(old[q.i - 1] == new[q.j - 1]);
                    assert(old[p.i - 1] == new[p.j - 1]);
                    assert(old[p.i - 2] == new[p.j - 2]);
                    assert(old.subrange(q.i - 3, q.i) =~= new.subrange(q.j - 3, q.j));
                } else {
                    assert forall|k: int| 1 <= k <= q.trailing implies #[trigger] old[q.i - k]
                        == new[q.j - k] by {
                        if k > 1 {
                            assert(old[p.i - (k - 1)] == new[p.j - (k - 1)]);
                        }
                    }
                }
            } else {
                assert(changes(q.script) =~= all_changes(p.done) + changes(g.body));
            }
        },
    }
}

proof fn lemma_completed(old: Seq<Seq<char>>, new: Seq<Seq<char>>, p: Progress)
    requires
        on_track(old, new, p),
    ensures
        on_track(old, new, completed(old, new, p)),
        completed(old, new, p).i == old.len(),
        completed(old, new, p).j == new.len(),
    decreases (old.len() - p.i) + (new.len() - p.j),
{
    if unfinished(old, new, p) {
        lemma_advance(old, new, p);
        lemma_completed(old, new, advance(old, new, p));
    }
}

proof fn lemma_at_start(old: Seq<Seq<char>>, new: Seq<Seq<char>>)
    ensures
        on_track(old, new, at_start()),
{
    let p = at_start();
    assert(old_side(p.script) =~= old.take(0));
    assert(new_side(p.script) =~= new.take(0));
    assert(old.take(0) =~= new.take(0));
    assert(changes(p.script) =~= all_changes(p.done));
    assert(old.subrange(0, 0) =~= new.subrange(0, 0));
}

/// The edit script tells the whole story: without its additions it is the old
/// text, without its deletions the new one.
pub proof fn law_script_reproduces_both(old: Seq<Seq<char>>, new: Seq<Seq<char>>)
    ensures
        old_side(edit_script(old, new)) == old,
        new_side(edit_script(old, new)) == new,
{
    lemma_at_start(old, new);
    lemma_completed(old, new, at_start());
    assert(old.take(old.len() as int) =~= old);
    assert(new.take(new.len() as int) =~= new);
}

/// The hunks show every change, once and in order, and no other.
pub proof fn law_hunks_show_every_change(old: Seq<Seq<char>>, new: Seq<Seq<char>>)
    ensures
        all_changes(hunks_of(old, new)) == changes(edit_script(old, new)),
{
    lemma_at_start(old, new);
    lemma_completed(old, new, at_start());
    let p = completed(old, new, at_start());
    if let Some(h) = p.open {
        lemma_changes_push(p.done, h);
    }
}

/// Each hunk quotes the two texts at the lines that its header names.
pub proof fn law_hunks_are_faithful(old: Seq<Seq<char>>, new: Seq<Seq<char>>, k: int)
    requires
        0 <= k < hunks_of(old, new).len(),
    ensures
        is_faithful(old, new, hunks_of(old, new)[k]),
{
    lemma_at_start(old, new);
    lemma_completed(old, new, at_start());
}

/// Whether the edited line at place `k` is added or deleted.
pub open spec fn changed_at(body: Seq<(Edit, Seq<char>)>, k: int) -> bool {
    0 <= k < body.len() && body[k].0 != Edit::Keep
}

/// Whether a hunk holds a change, at most three lines from its start and at most
/// three from its end.
pub open spec fn is_shaped(h: Hunk) -> bool {
    &&& exists|k: int| k <= 3 && #[trigger] changed_at(h.body, k)
    &&& exists|k: int| h.body.len() - 4 <= k && #[trigger] changed_at(h.body, k)
}

/// What the hunks look like at every point of a comparison.
spec fn takes_shape(p: Progress) -> bool {
    &&& forall|k: int| 0 <= k < p.done.len() ==> is_shaped(#[trigger] p.done[k])
    &&& p.open matches Some(h) ==> {
        &&& 0 <= p.trailing <= 2
        &&& exists|k: int| k <= 3 && #[trigger] changed_at(h.body, k)
        &&& changed_at(h.body, h.body.len() - 1 - p.trailing)
    }
}

/// A hunk that grows keeps the changes that it has.
proof fn lemma_grown_shape(h: Hunk, e: Edit, line: Seq<char>)
    requires
        exists|k: int| k <= 3 && #[trigger] changed_at(h.body, k),
    ensures
        exists|k: int| k <= 3 && #[trigger] changed_at(grown(h, e, line).body, k),
{
    let k = choose|k: int| k <= 3 && #[trigger] changed_at(h.body, k);
    assert(changed_at(grown(h, e, line).body, k));
}

proof fn lemma_shape_step(old: Seq<Seq<char>>, new: Seq<Seq<char>>, p: Progress, q: Progress)
    requires
        takes_shape(p),
        unfinished(old, new, p),
        q == advance(old, new, p),
    ensures
        takes_shape(q),
{
    let e = next_edit(old, new, p.i, p.j);
    let line = if e == Edit::Add {
        new[p.j]
    } else {
        old[p.i]
    };
    match p.open {
        None => {
            if e != Edit::Keep {
                let h = opened(old, p.i, p.j);
                let g = grown(h, e, line);
                assert(h.body.len() <= 3);
                assert(g.body.len() - 1 == h.body.len());
                assert(changed_at(g.body, h.body.len() as int));
                assert(exists|k: int| k <= 3 && #[trigger] changed_at(g.body, k));
                assert(q.open == Some(g) && q.trailing == 0);
                assert(changed_at(g.body, g.body.len() - 1 - q.trailing));
            } else {
                assert(q.open is None);
            }
            assert forall|k: int| 0 <= k < q.done.len() implies is_shaped(
                #[trigger] q.done[k],
            ) by {
                assert(q.done[k] == p.done[k]);
            }
            assert(takes_shape(q));
        },
        Some(h) => {
            let g = grown(h, e, line);
            lemma_grown_shape(h, e, line);
            if e == Edit::Keep {
                assert(changed_at(g.body, h.body.len() - 1 - p.trailing));
                if p.trailing + 1 >= 3 {
                    assert(is_shaped(g));
                    assert forall|k: int| 0 <= k < q.done.len() implies is_shaped(
                        #[trigger] q.done[k],
                    ) by {
                        if k < p.done.len() {
                            assert(q.done[k] == p.done[k]);
                        }
                    }
                }
            } else {
                assert(changed_at(g.body, h.body.len() as int));
            }
        },
    }
}

proof fn lemma_shape(old: Seq<Seq<char>>, new: Seq<Seq<char>>, p: Progress)
    requires
        takes_shape(p),
    ensures
        takes_shape(completed(old, new, p)),
    decreases (old.len() - p.i) + (new.len() - p.j),
{
    if unfinished(old, new, p) {
        lemma_shape_step(old, new, p, advance(old, new, p));
        lemma_shape(old, new, advance(old, new, p));
    }
}

/// Each hunk holds at least one change, with at most three lines of context
/// before its first change and at most three after its last.
pub proof fn law_hunk_shape(old: Seq<Seq<char>>, new: Seq<Seq<char>>, k: int)
    requires
        0 <= k < hunks_of(old, new).len(),
    ensures
        is_shaped(hunks_of(old, new)[k]),
{
    lemma_shape(old, new, at_start());
}

/// The diff of a text with itself is empty, and only texts with the same lines
/// have an empty diff.
pub proof fn law_empty_diff(old: Seq<char>, new: Seq<char>)
    ensures
        diff_text(old, new).len() == 0 <==> text::lines_of(old) == text::lines_of(new),
        hunks_of(text::lines_of(old), text::lines_of(new)).len() == 0 <==> text::lines_of(old)
            == text::lines_of(new),
{
    let o = text::lines_of(old);
    let n = text::lines_of(new);
    reveal_strlit("--- hearth.yaml (current)\n");
    lemma_at_start(o, n);
    lemma_completed(o, n, at_start());
    let p = completed(o, n, at_start());
    if hunks_of(o, n).len() == 0 {
        assert(p.done.len() == 0 && p.open is None);
        assert(o.take(o.len() as int) =~= o);
        assert(n.take(n.len() as int) =~= n);
    }
    if o == n {
        lemma_same_completed(o, at_start());
    }
}

/// Comparing a text with itself opens no hunk.
proof fn lemma_same_completed(old: Seq<Seq<char>>, p: Progress)
    requires
        p.i == p.j,
        0 <= p.i,
        p.open is None,
        p.done.len() == 0,
    ensures
        completed(old, old, p).open is None,
        completed(old, old, p).done.len() == 0,
    decreases old.len() - p.i,
{
    if unfinished(old, old, p) {
        lemma_same_completed(old, advance(old, old, p));
    }
}

// ---------------------------------------------------------------------------
// Reading a diff back
// ---------------------------------------------------------------------------

/// How far a diff has been applied to the old lines.
#[verifier::ext_equal]
pub struct Place {
    /// Whether the diff has fitted so far.
    pub ok: bool,
    /// Old lines that are done with.
    pub i: int,
    /// The new lines so far.
    pub out: Seq<Seq<char>>,
    /// The old line at which the hunk stands.
    pub p: int,
    /// The new line at which the hunk stands.
    pub q: int,
}

/// The old lines up to `to`, taken over.
pub open spec fn caught_up(old: Seq<Seq<char>>, s: Place, to: int) -> Place {
    if s.i < to {
        Place { i: to, out: s.out + old.subrange(s.i, to), ..s }
    } else {
        s
    }
}

/// One edited line, applied: a kept line has to stand in both texts where the
/// hunk says, a deleted one in the old text, an added one comes next.
pub open spec fn applied(old: Seq<Seq<char>>, s: Place, e: Edit, line: Seq<char>) -> Place {
    match e {
        Edit::Keep => {
            let t = caught_up(old, s, s.p + 1);
            Place {
                ok: s.ok && 0 <= s.p < old.len() && old[s.p] == line && 0 <= s.q < t.out.len()
                    && t.out[s.q] == line,
                p: s.p + 1,
                q: s.q + 1,
                ..t
            }
        },
        Edit::Del => {
            let t = caught_up(old, s, s.p);
            Place {
                ok: s.ok && 0 <= s.p < old.len() && old[s.p] == line && t.i == s.p,
                i: s.p + 1,
                p: s.p + 1,
                ..t
            }
        },
        Edit::Add => {
            let t = caught_up(old, s, s.p);
            Place {
                ok: s.ok && 0 <= s.p <= old.len() && t.i == s.p && t.out.len() == s.q,
                out: t.out.push(line),
                q: s.q + 1,
                ..t
            }
        },
    }
}

/// Edited lines, applied one after the other.
pub open spec fn all_applied(
    old: Seq<Seq<char>>,
    s: Place,
    body: Seq<(Edit, Seq<char>)>,
) -> Place
    decreases body.len(),
{
    if body.len() == 0 {
        s
    } else {
        let (e, line) = body.last();
        applied(old, all_applied(old, s, body.drop_last()), e, line)
    }
}

/// What the reader of a diff keeps in mind.
#[verifier::ext_equal]
pub struct Reader {
    pub place: Place,
    /// Old lines that the hunk still owes.
    pub old_left: int,
    /// New lines that the hunk still owes.
    pub new_left: int,
}

/// A start and a length, after a sign.
pub open spec fn range_of(s: Seq<char>, sign: char) -> Option<(nat, nat)> {
    let parts = text::split_pieces(s.skip(1), text::Separator::Char(','));
    if s.len() > 0 && s[0] == sign && parts.len() == 2 {
        match (text::digits_value(parts[0]), text::digits_value(parts[1])) {
            (Some(start), Some(len)) => Some((start, len)),
            _ => None,
        }
    } else {
        None
    }
}

/// The ranges that a hunk's header names: of the old text, and of the new one.
pub open spec fn header_of(row: Seq<char>) -> Option<((nat, nat), (nat, nat))> {
    let parts = text::split_pieces(row, text::Separator::Char(' '));
    if parts.len() == 4 && parts[0] == "@@"@ && parts[3] == "@@"@ {
        match (range_of(parts[1], '-'), range_of(parts[2], '+')) {
            (Some(o), Some(n)) => Some((o, n)),
            _ => None,
        }
    } else {
        None
    }
}

/// What an edited line's first character says.
pub open spec fn edit_of(c: char) -> Option<Edit> {
    if c == ' ' {
        Some(Edit::Keep)
    } else if c == '+' {
        Some(Edit::Add)
    } else if c == '-' {
        Some(Edit::Del)
    } else {
        None
    }
}

/// One more row of a diff: a header starts a hunk once the one before holds as
/// many lines as its own header says; any other row is an edited line.
pub open spec fn row_read(old: Seq<Seq<char>>, r: Reader, row: Seq<char>) -> Reader {
    if row.len() == 0 {
        Reader { place: Place { ok: false, ..r.place }, ..r }
    } else {
        match edit_of(row[0]) {
            Some(e) => Reader {
                place: applied(old, r.place, e, row.skip(1)),
                old_left: if e == Edit::Add {
                    r.old_left
                } else {
                    r.old_left - 1
                },
                new_left: if e == Edit::Del {
                    r.new_left
                } else {
                    r.new_left - 1
                },
            },
            None => match header_of(row) {
                Some((o, n)) => Reader {
                    place: Place {
                        ok: r.place.ok && r.old_left == 0 && r.new_left == 0,
                        p: o.0 - 1,
                        q: n.0 - 1,
                        ..r.place
                    },
                    old_left: o.1 as int,
                    new_left: n.1 as int,
                },
                None => Reader { place: Place { ok: false, ..r.place }, ..r },
            },
        }
    }
}

/// Rows of a diff, read one after the other.
pub open spec fn rows_read(old: Seq<Seq<char>>, r: Reader, rows: Seq<Seq<char>>) -> Reader
    decreases rows.len(),
{
    if rows.len() == 0 {
        r
    } else {
        row_read(old, rows_read(old, r, rows.drop_last()), rows.last())
    }
}

/// Nothing read yet.
pub open spec fn fresh_reader() -> Reader {
    Reader {
        place: Place { ok: true, i: 0, out: Seq::empty(), p: 0, q: 0 },
        old_left: 0,
        new_left: 0,
    }
}

/// The lines that a printed diff makes of the old lines, if it fits them. No
/// text at all changes nothing.
pub open spec fn patched(old: Seq<Seq<char>>, printed: Seq<char>) -> Option<Seq<Seq<char>>> {
    let pieces = text::split_pieces(printed, text::Separator::Char('\n'));
    if printed.len() == 0 {
        Some(old)
    } else if pieces.len() >= 3 && pieces[0] == "--- hearth.yaml (current)"@ && pieces[1]
        == "+++ hearth.yaml (proposed)"@ && pieces.last().len() == 0 {
        let r = rows_read(old, fresh_reader(), pieces.subrange(2, pieces.len() - 1));
        if r.place.ok && r.old_left == 0 && r.new_left == 0 {
            Some(r.place.out + old.skip(r.place.i))
        } else {
            None
        }
    } else {
        None
    }
}

/// Where a hunk starts to be applied.
spec fn at_hunk(s: Place, h: Hunk) -> Place {
    Place { p: h.old_start, q: h.new_start, ..s }
}

/// The hunks, applied one after the other.
spec fn hunks_applied(old: Seq<Seq<char>>, s: Place, hunks: Seq<Hunk>) -> Place
    decreases hunks.len(),
{
    if hunks.len() == 0 {
        s
    } else {
        let before = hunks_applied(old, s, hunks.drop_last());
        all_applied(old, at_hunk(before, hunks.last()), hunks.last().body)
    }
}

/// Whether what is applied agrees with a comparison of which `i` old and `j` new
/// lines are done.
spec fn agrees(old: Seq<Seq<char>>, new: Seq<Seq<char>>, s: Place, i: int, j: int) -> bool {
    &&& s.ok
    &&& 0 <= s.i <= i
    &&& s.out + old.subrange(s.i, i) == new.take(j)
}

/// Whether lines hold no line feed.
spec fn is_clean(body: Seq<(Edit, Seq<char>)>) -> bool {
    forall|k: int| 0 <= k < body.len() ==> !(#[trigger] body[k]).1.contains('\n')
}

/// What applying gives at every point of a comparison.
spec fn follows(old: Seq<Seq<char>>, new: Seq<Seq<char>>, p: Progress) -> bool {
    let d = hunks_applied(old, fresh_reader().place, p.done);
    &&& forall|k: int| 0 <= k < p.done.len() ==> is_clean((#[trigger] p.done[k]).body)
    &&& match p.open {
        None => agrees(old, new, d, p.i, p.j),
        Some(h) => {
            let s = all_applied(old, at_hunk(d, h), h.body);
            &&& agrees(old, new, s, p.i, p.j)
            &&& s.p == p.i
            &&& s.q == p.j
            &&& is_clean(h.body)
        },
    }
}

proof fn lemma_applied_push(old: Seq<Seq<char>>, s: Place, h: Hunk, e: Edit, line: Seq<char>)
    ensures
        all_applied(old, s, grown(h, e, line).body) == applied(
            old,
            all_applied(old, s, h.body),
            e,
            line,
        ),
{
    assert(grown(h, e, line).body.drop_last() =~= h.body);
}

/// The context of a new hunk fits.
proof fn lemma_context_applied(
    old: Seq<Seq<char>>,
    new: Seq<Seq<char>>,
    p: Progress,
    d: Place,
    m: int,
)
    requires
        on_track(old, new, p),
        p.open is None,
        agrees(old, new, d, p.i, p.j),
        0 <= m <= p.i - context_start(p.i),
    ensures
        ({
            let h = opened(old, p.i, p.j);
            let s = all_applied(old, at_hunk(d, h), h.body.take(m));
            &&& agrees(old, new, s, p.i, p.j)
            &&& s.p == h.old_start + m
            &&& s.q == h.new_start + m
        }),
    decreases m,
{
    let h = opened(old, p.i, p.j);
    if m == 0 {
        assert(h.body.take(0) =~= Seq::<(Edit, Seq<char>)>::empty());
    } else {
        lemma_context_applied(old, new, p, d, m - 1);
        let body = h.body.take(m);
        assert(body.drop_last() =~= h.body.take(m - 1));
        let s = all_applied(old, at_hunk(d, h), h.body.take(m - 1));
        let line = body.last().1;
        let t = caught_up(old, s, s.p + 1);
        assert(line == old[s.p]);
        assert(t.out + old.subrange(t.i, p.i) =~= new.take(p.j)) by {
            if s.i < s.p + 1 {
                assert(old.subrange(s.i, s.p + 1) + old.subrange(s.p + 1, p.i) =~= old.subrange(
                    s.i,
                    p.i,
                ));
                assert(t.out + old.subrange(t.i, p.i) =~= s.out + (old.subrange(s.i, s.p + 1)
                    + old.subrange(s.p + 1, p.i)));
            }
        }
        assert(t.out.len() == p.j - p.i + t.i);
        assert(t.out[s.q] == (t.out + old.subrange(t.i, p.i))[s.q]);
        assert(new.take(p.j)[s.q] == new[s.q]);
        assert(old.subrange(context_start(p.i), p.i)[m - 1] == old[s.p]);
        assert(new.subrange(context_start(p.j), p.j)[m - 1] == new[s.q]);
    }
}

/// The next line fits a hunk that stands where the comparison does.
proof fn lemma_next_applied(
    old: Seq<Seq<char>>,
    new: Seq<Seq<char>>,
    s: Place,
    i: int,
    j: int,
    e: Edit,
    line: Seq<char>,
)
    requires
        agrees(old, new, s, i, j),
        s.p == i,
        s.q == j,
        0 <= i <= old.len(),
        0 <= j <= new.len(),
        e != Edit::Add ==> i < old.len() && old[i] == line,
        e != Edit::Del ==> j < new.len() && new[j] == line,
    ensures
        ({
            let t = applied(old, s, e, line);
            let a = if e == Edit::Add {
                i
            } else {
                i + 1
            };
            let b = if e == Edit::Del {
                j
            } else {
                j + 1
            };
            &&& agrees(old, new, t, a, b)
            &&& t.p == a
            &&& t.q == b
        }),
{
    let t = applied(old, s, e, line);
    assert(s.out.len() + (i - s.i) == j);
    match e {
        Edit::Keep => {
            assert(old.subrange(s.i, i + 1) =~= old.subrange(s.i, i).push(line));
            assert(new.take(j + 1) =~= new.take(j).push(line));
            assert(t.out =~= (s.out + old.subrange(s.i, i)).push(line));
            assert(t.out + old.subrange(i + 1, i + 1) =~= new.take(j + 1));
        },
        Edit::Del => {
            assert(t.out =~= s.out + old.subrange(s.i, i)) by {
                if s.i == i {
                    assert(old.subrange(i, i) =~= Seq::<Seq<char>>::empty());
                }
            }
            assert(t.out + old.subrange(i + 1, i + 1) =~= new.take(j));
        },
        Edit::Add => {
            let u = caught_up(old, s, s.p);
            assert(u.out =~= s.out + old.subrange(s.i, i)) by {
                if s.i == i {
                    assert(old.subrange(i, i) =~= Seq::<Seq<char>>::empty());
                }
            }
            assert(new.take(j + 1) =~= new.take(j).push(line));
            assert(t.out + old.subrange(i, i) =~= new.take(j + 1));
        },
    }
}

proof fn lemma_follows_step(old: Seq<Seq<char>>, new: Seq<Seq<char>>, p: Progress)
    requires
        on_track(old, new, p),
        follows(old, new, p),
        unfinished(old, new, p),
        forall|k: int| 0 <= k < old.len() ==> !(#[trigger] old[k]).contains('\n'),
        forall|k: int| 0 <= k < new.len() ==> !(#[trigger] new[k]).contains('\n'),
    ensures
        follows(old, new, advance(old, new, p)),
{
    let q = advance(old, new, p);
    let e = next_edit(old, new, p.i, p.j);
    let line = if e == Edit::Add {
        new[p.j]
    } else {
        old[p.i]
    };
    let d = hunks_applied(old, fresh_reader().place, p.done);
    assert(!line.contains('\n'));
    match p.open {
        None => {
            if e == Edit::Keep {
                assert(old.subrange(d.i, p.i + 1) =~= old.subrange(d.i, p.i).push(line));
                assert(new.take(p.j + 1) =~= new.take(p.j).push(line));
                assert(d.out + old.subrange(d.i, p.i + 1) =~= (d.out + old.subrange(
                    d.i,
                    p.i,
                )).push(line));
            } else {
                let h = opened(old, p.i, p.j);
                let n = h.body.len() as int;
                lemma_context_applied(old, new, p, d, n);
                assert(h.body.take(n) =~= h.body);
                lemma_applied_push(old, at_hunk(d, h), h, e, line);
                let s = all_applied(old, at_hunk(d, h), h.body);
                lemma_next_applied(old, new, s, p.i, p.j, e, line);
                assert(at_hunk(d, grown(h, e, line)) == at_hunk(d, h));
            }
        },
        Some(h) => {
            let g = grown(h, e, line);
            let s = all_applied(old, at_hunk(d, h), h.body);
            lemma_applied_push(old, at_hunk(d, h), h, e, line);
            lemma_next_applied(old, new, s, p.i, p.j, e, line);
            assert(at_hunk(d, g) == at_hunk(d, h));
            if e == Edit::Keep && p.trailing + 1 >= 3 {
                assert(q.done.drop_last() =~= p.done);
            }
        },
    }
}

proof fn lemma_follows(old: Seq<Seq<char>>, new: Seq<Seq<char>>, p: Progress)
    requires
        on_track(old, new, p),
        follows(old, new, p),
        forall|k: int| 0 <= k < old.len() ==> !(#[trigger] old[k]).contains('\n'),
        forall|k: int| 0 <= k < new.len() ==> !(#[trigger] new[k]).contains('\n'),
    ensures
        follows(old, new, completed(old, new, p)),
    decreases (old.len() - p.i) + (new.len() - p.j),
{
    if unfinished(old, new, p) {
        lemma_advance(old, new, p);
        lemma_follows_step(old, new, p);
        lemma_follows(old, new, advance(old, new, p));
    }
}

/// The hunks turn the old lines into the new ones.
proof fn lemma_hunks_applied(old: Seq<Seq<char>>, new: Seq<Seq<char>>)
    requires
        forall|k: int| 0 <= k < old.len() ==> !(#[trigger] old[k]).contains('\n'),
        forall|k: int| 0 <= k < new.len() ==> !(#[trigger] new[k]).contains('\n'),
    ensures
        ({
            let s = hunks_applied(old, fresh_reader().place, hunks_of(old, new));
            &&& s.ok
            &&& s.out + old.skip(s.i) == new
        }),
        forall|k: int|
            0 <= k < hunks_of(old, new).len() ==> is_clean((#[trigger] hunks_of(old, new)[k]).body),
{
    lemma_at_start(old, new);
    assert(new.take(0) =~= Seq::<Seq<char>>::empty() + old.subrange(0, 0));
    lemma_follows(old, new, at_start());
    lemma_completed(old, new, at_start());
    let p = completed(old, new, at_start());
    let hunks = hunks_of(old, new);
    if p.open is Some {
        assert(hunks.drop_last() =~= p.done);
    }
    let s = hunks_applied(old, fresh_reader().place, hunks);
    assert(old.subrange(s.i, old.len() as int) =~= old.skip(s.i));
    assert(new.take(new.len() as int) =~= new);
}

// The printed form.

spec fn header_row(h: Hunk) -> Seq<char> {
    "@@ -"@ + text::decimal((h.old_start + 1) as nat) + ","@ + text::decimal(old_side(h.body).len())
        + " +"@ + text::decimal((h.new_start + 1) as nat) + ","@ + text::decimal(
        new_side(h.body).len(),
    ) + " @@"@
}

spec fn body_rows(body: Seq<(Edit, Seq<char>)>) -> Seq<Seq<char>> {
    Seq::new(body.len(), |k: int| mark(body[k].0) + body[k].1)
}

spec fn hunk_rows(h: Hunk) -> Seq<Seq<char>> {
    seq![header_row(h)] + body_rows(h.body)
}

spec fn hunks_rows(hunks: Seq<Hunk>) -> Seq<Seq<char>>
    decreases hunks.len(),
{
    if hunks.len() == 0 {
        Seq::empty()
    } else {
        hunks_rows(hunks.drop_last()) + hunk_rows(hunks.last())
    }
}

/// Whether a text is made of rows, each of them ended.
spec fn has_rows(s: Seq<char>, rows: Seq<Seq<char>>) -> bool {
    text::split_pieces(s, text::Separator::Char('\n')) == rows.push(Seq::<char>::empty())
}

proof fn lemma_body_rows(s: Seq<char>, rows: Seq<Seq<char>>, body: Seq<(Edit, Seq<char>)>)
    requires
        has_rows(s, rows),
        is_clean(body),
    ensures
        has_rows(s + body_text(body), rows + body_rows(body)),
    decreases body.len(),
{
    if body.len() == 0 {
        assert(s + body_text(body) =~= s);
        assert(rows + body_rows(body) =~= rows);
    } else {
        let rest = body.drop_last();
        let row = mark(body.last().0) + body.last().1;
        lemma_body_rows(s, rows, rest);
        reveal_strlit(" ");
        reveal_strlit("+");
        reveal_strlit("-");
        assert(!row.contains('\n')) by {
            assert(!body[body.len() - 1].1.contains('\n'));
            if row.contains('\n') {
                let i = choose|i: int| 0 <= i < row.len() && row[i] == '\n';
                assert(i >= 1);
                assert(body.last().1[i - 1] == '\n');
            }
        }
        text::lemma_split_ended(s + body_text(rest), rows + body_rows(rest), row);
        assert(s + body_text(body) =~= (s + body_text(rest) + row).push('\n'));
        assert(rows + body_rows(body) =~= (rows + body_rows(rest)).push(row));
    }
}

proof fn lemma_hunks_rows(s: Seq<char>, rows: Seq<Seq<char>>, hunks: Seq<Hunk>)
    requires
        has_rows(s, rows),
        forall|k: int| 0 <= k < hunks.len() ==> is_clean((#[trigger] hunks[k]).body),
    ensures
        has_rows(s + hunks_text(hunks), rows + hunks_rows(hunks)),
    decreases hunks.len(),
{
    if hunks.len() == 0 {
        assert(s + hunks_text(hunks) =~= s);
        assert(rows + hunks_rows(hunks) =~= rows);
    } else {
        let rest = hunks.drop_last();
        let h = hunks.last();
        assert forall|k: int| 0 <= k < rest.len() implies is_clean((#[trigger] rest[k]).body) by {
            assert(rest[k] == hunks[k]);
        }
        lemma_hunks_rows(s, rows, rest);
        let t = s + hunks_text(rest);
        let before = rows + hunks_rows(rest);
        lemma_header_row(h);
        text::lemma_split_ended(t, before, header_row(h));
        let u = (t + header_row(h)).push('\n');
        assert(is_clean(hunks[hunks.len() - 1].body));
        lemma_body_rows(u, before.push(header_row(h)), h.body);
        reveal_strlit(" @@\n");
        reveal_strlit(" @@");
        assert(" @@\n"@ =~= " @@"@.push('\n'));
        assert(hunk_text(h) =~= header_row(h).push('\n') + body_text(h.body));
        assert(s + hunks_text(hunks) =~= u + body_text(h.body));
        assert(rows + hunks_rows(hunks) =~= before.push(header_row(h)) + body_rows(h.body));
    }
}

/// A range is read back from what a header says of it.
proof fn lemma_range(start: nat, len: nat, sign: char)
    ensures
        range_of(seq![sign] + text::decimal(start) + ","@ + text::decimal(len), sign) == Some(
            (start, len),
        ),
{
    let s = seq![sign] + text::decimal(start) + ","@ + text::decimal(len);
    let parts = seq![text::decimal(start), text::decimal(len)];
    let comma = text::Separator::Char(',');
    text::lemma_decimal_value(start);
    text::lemma_decimal_value(len);
    reveal_strlit(",");
    assert(","@ =~= seq![',']);
    assert(parts.drop_last() =~= seq![parts[0]]);
    reveal_with_fuel(text::joined, 3);
    assert(text::joined(parts, seq![',']) =~= s.skip(1));
    assert forall|k: int, i: int|
        0 <= k < parts.len() && 0 <= i < parts[k].len() implies !text::separates(
        comma,
        #[trigger] parts[k][i],
    ) by {
        assert('0' <= parts[k][i] <= '9');
    }
    text::lemma_split_joined(parts, ',', comma);
}

/// A range as a header writes it.
spec fn range_text(sign: char, start: nat, len: nat) -> Seq<char> {
    seq![sign] + text::decimal(start) + ","@ + text::decimal(len)
}

/// A range holds neither a blank nor a line break.
proof fn lemma_range_text(sign: char, start: nat, len: nat)
    requires
        sign == '-' || sign == '+',
    ensures
        !range_text(sign, start, len).contains(' '),
        !range_text(sign, start, len).contains('\n'),
{
    let s = range_text(sign, start, len);
    let a = text::decimal(start);
    let b = text::decimal(len);
    text::lemma_decimal_value(start);
    text::lemma_decimal_value(len);
    reveal_strlit(",");
    assert forall|i: int| 0 <= i < s.len() implies s[i] != ' ' && s[i] != '\n' by {
        if 1 <= i < 1 + a.len() {
            assert(s[i] == a[i - 1]);
        } else if i > 1 + a.len() {
            assert(s[i] == b[i - 2 - a.len()]);
        }
    }
}

/// A header is four words.
proof fn lemma_header_words(h: Hunk)
    ensures
        ({
            let left = range_text('-', (h.old_start + 1) as nat, old_side(h.body).len());
            let right = range_text('+', (h.new_start + 1) as nat, new_side(h.body).len());
            let parts = seq!["@@"@, left, right, "@@"@];
            &&& header_row(h) == "@@"@ + seq![' '] + left + seq![' '] + right + seq![' '] + "@@"@
            &&& header_row(h) == text::joined(parts, seq![' '])
        }),
{
    let left = range_text('-', (h.old_start + 1) as nat, old_side(h.body).len());
    let right = range_text('+', (h.new_start + 1) as nat, new_side(h.body).len());
    let parts = seq!["@@"@, left, right, "@@"@];
    let row = header_row(h);
    reveal_strlit("@@ -");
    reveal_strlit(" +");
    reveal_strlit(" @@");
    reveal_strlit("@@");
    assert("@@ -"@ =~= "@@"@ + seq![' '] + seq!['-']);
    assert(" +"@ =~= seq![' '] + seq!['+']);
    assert(" @@"@ =~= seq![' '] + "@@"@);
    assert(row =~= "@@"@ + seq![' '] + left + seq![' '] + right + seq![' '] + "@@"@);
    let p3 = parts.drop_last();
    let p2 = p3.drop_last();
    let p1 = p2.drop_last();
    assert(p1 =~= seq!["@@"@]);
    assert(text::joined(p1, seq![' ']) == "@@"@);
    assert(p2.last() == left && p2.len() == 2);
    assert(text::joined(p2, seq![' ']) == "@@"@ + seq![' '] + left);
    assert(p3.last() == right && p3.len() == 3);
    assert(text::joined(p3, seq![' ']) == "@@"@ + seq![' '] + left + seq![' '] + right);
}

/// The ranges are read back from a header.
proof fn lemma_header_row(h: Hunk)
    ensures
        header_row(h).len() > 0,
        header_row(h)[0] == '@',
        !header_row(h).contains('\n'),
        header_of(header_row(h)) == Some(
            (
                ((h.old_start + 1) as nat, old_side(h.body).len()),
                ((h.new_start + 1) as nat, new_side(h.body).len()),
            ),
        ),
{
    let a = (h.old_start + 1) as nat;
    let b = old_side(h.body).len();
    let c = (h.new_start + 1) as nat;
    let d = new_side(h.body).len();
    let row = header_row(h);
    let left = range_text('-', a, b);
    let right = range_text('+', c, d);
    let parts = seq!["@@"@, left, right, "@@"@];
    let space = text::Separator::Char(' ');
    reveal_strlit("@@");
    lemma_header_words(h);
    lemma_range(a, b, '-');
    lemma_range(c, d, '+');
    lemma_range_text('-', a, b);
    lemma_range_text('+', c, d);
    assert forall|k: int, i: int|
        0 <= k < parts.len() && 0 <= i < parts[k].len() implies !text::separates(
        space,
        #[trigger] parts[k][i],
    ) by {
        assert(parts[k].contains(parts[k][i]));
    }
    text::lemma_split_joined(parts, ' ', space);
    let m = left.len() as int;
    let n = right.len() as int;
    if row.contains('\n') {
        let i = choose|i: int| 0 <= i < row.len() && row[i] == '\n';
        if 3 <= i < 3 + m {
            assert(row[i] == left[i - 3]);
            assert(left.contains(left[i - 3]));
        } else if 4 + m <= i < 4 + m + n {
            assert(row[i] == right[i - 4 - m]);
            assert(right.contains(right[i - 4 - m]));
        }
    }
}

proof fn lemma_body_read(
    old: Seq<Seq<char>>,
    r: Reader,
    before: Seq<Seq<char>>,
    body: Seq<(Edit, Seq<char>)>,
)
    ensures
        rows_read(old, r, before + body_rows(body)) == ({
            let s = rows_read(old, r, before);
            Reader {
                place: all_applied(old, s.place, body),
                old_left: s.old_left - old_side(body).len(),
                new_left: s.new_left - new_side(body).len(),
            }
        }),
    decreases body.len(),
{
    if body.len() == 0 {
        assert(before + body_rows(body) =~= before);
    } else {
        let rest = body.drop_last();
        let (e, line) = body.last();
        let row = mark(e) + line;
        lemma_body_read(old, r, before, rest);
        let rows = before + body_rows(body);
        assert(rows.drop_last() =~= before + body_rows(rest));
        assert(rows.last() == row);
        reveal_strlit(" ");
        reveal_strlit("+");
        reveal_strlit("-");
        assert(row.skip(1) =~= line);
        assert(edit_of(row[0]) == Some(e));
    }
}

proof fn lemma_hunks_read(old: Seq<Seq<char>>, new: Seq<Seq<char>>, hunks: Seq<Hunk>)
    requires
        forall|k: int| 0 <= k < hunks.len() ==> is_faithful(old, new, #[trigger] hunks[k]),
    ensures
        rows_read(old, fresh_reader(), hunks_rows(hunks)) == ({
            let s = hunks_applied(old, fresh_reader().place, hunks);
            let r = rows_read(old, fresh_reader(), hunks_rows(hunks));
            Reader { place: Place { p: r.place.p, q: r.place.q, ..s }, old_left: 0, new_left: 0 }
        }),
    decreases hunks.len(),
{
    if hunks.len() > 0 {
        let rest = hunks.drop_last();
        let h = hunks.last();
        assert forall|k: int| 0 <= k < rest.len() implies is_faithful(
            old,
            new,
            #[trigger] rest[k],
        ) by {
            assert(rest[k] == hunks[k]);
        }
        lemma_hunks_read(old, new, rest);
        lemma_header_row(h);
        assert(is_faithful(old, new, hunks[hunks.len() - 1]));
        let before = hunks_rows(rest);
        let headed = before.push(header_row(h));
        assert(headed.drop_last() =~= before);
        lemma_body_read(old, fresh_reader(), headed, h.body);
        assert(hunks_rows(hunks) =~= headed + body_rows(h.body));
        let d = hunks_applied(old, fresh_reader().place, rest);
        let s = rows_read(old, fresh_reader(), headed);
        assert(edit_of('@') is None);
        assert(s.place == at_hunk(d, h));
    }
}

/// The printed diff is a patch: read back and applied to the old lines, it gives
/// the new lines. Each header tells where its hunk stands in both texts and how
/// many lines of each it holds, and each kept line stands in both.
pub proof fn law_printed_diff_is_a_patch(old: Seq<char>, new: Seq<char>)
    ensures
        patched(text::lines_of(old), diff_text(old, new)) == Some(text::lines_of(new)),
{
    let o = text::lines_of(old);
    let n = text::lines_of(new);
    if o != n {
        let hunks = hunks_of(o, n);
        text::lemma_lines_clean(old);
        text::lemma_lines_clean(new);
        lemma_hunks_applied(o, n);
        lemma_printed_rows(old, new);
        law_empty_diff(old, new);
        assert forall|k: int| 0 <= k < hunks.len() implies is_faithful(
            o,
            n,
            #[trigger] hunks[k],
        ) by {
            law_hunks_are_faithful(o, n, k);
        }
        let pieces = text::split_pieces(diff_text(old, new), text::Separator::Char('\n'));
        assert(pieces[0] == "--- hearth.yaml (current)"@);
        assert(pieces[1] == "+++ hearth.yaml (proposed)"@);
        assert(pieces.subrange(2, pieces.len() - 1) =~= hunks_rows(hunks));
        lemma_hunks_read(o, n, hunks);
    }
}

/// The rows of a printed diff behind its two header lines.
pub open spec fn printed_rows(printed: Seq<char>) -> Seq<Seq<char>> {
    let pieces = text::split_pieces(printed, text::Separator::Char('\n'));
    if pieces.len() < 3 {
        Seq::empty()
    } else {
        pieces.subrange(2, pieces.len() - 1)
    }
}

/// The changes that rows show: those that start with a plus or a minus sign.
pub open spec fn row_changes(rows: Seq<Seq<char>>) -> Seq<(Edit, Seq<char>)>
    decreases rows.len(),
{
    if rows.len() == 0 {
        Seq::empty()
    } else {
        let before = row_changes(rows.drop_last());
        let row = rows.last();
        if row.len() > 0 && row[0] == '+' {
            before.push((Edit::Add, row.skip(1)))
        } else if row.len() > 0 && row[0] == '-' {
            before.push((Edit::Del, row.skip(1)))
        } else {
            before
        }
    }
}

proof fn lemma_body_changes(before: Seq<Seq<char>>, body: Seq<(Edit, Seq<char>)>)
    ensures
        row_changes(before + body_rows(body)) == row_changes(before) + changes(body),
    decreases body.len(),
{
    if body.len() == 0 {
        assert(before + body_rows(body) =~= before);
        assert(row_changes(before) + changes(body) =~= row_changes(before));
    } else {
        let rest = body.drop_last();
        let (e, line) = body.last();
        let row = mark(e) + line;
        lemma_body_changes(before, rest);
        let rows = before + body_rows(body);
        assert(rows.drop_last() =~= before + body_rows(rest));
        assert(rows.last() == row);
        reveal_strlit(" ");
        reveal_strlit("+");
        reveal_strlit("-");
        assert(row.skip(1) =~= line);
        assert(row_changes(before) + changes(rest).push((e, line)) =~= (row_changes(before)
            + changes(rest)).push((e, line)));
    }
}

proof fn lemma_hunks_changes(hunks: Seq<Hunk>)
    ensures
        row_changes(hunks_rows(hunks)) == all_changes(hunks),
    decreases hunks.len(),
{
    if hunks.len() > 0 {
        let rest = hunks.drop_last();
        let h = hunks.last();
        lemma_hunks_changes(rest);
        lemma_header_row(h);
        let before = hunks_rows(rest);
        let headed = before.push(header_row(h));
        assert(headed.drop_last() =~= before);
        assert(row_changes(headed) == row_changes(before));
        lemma_body_changes(headed, h.body);
        assert(hunks_rows(hunks) =~= headed + body_rows(h.body));
    }
}

/// The printed diff shows every change: its rows that start with a plus or a
/// minus sign are exactly the added and the deleted lines of the edit script, in
/// order; and that script, without its additions, is the old text, and without
/// its deletions the new one.
pub proof fn law_printed_changes(old: Seq<char>, new: Seq<char>)
    ensures
        row_changes(printed_rows(diff_text(old, new))) == changes(
            edit_script(text::lines_of(old), text::lines_of(new)),
        ),
        old_side(edit_script(text::lines_of(old), text::lines_of(new))) == text::lines_of(old),
        new_side(edit_script(text::lines_of(old), text::lines_of(new))) == text::lines_of(new),
{
    let o = text::lines_of(old);
    let n = text::lines_of(new);
    law_script_reproduces_both(o, n);
    law_hunks_show_every_change(o, n);
    law_empty_diff(old, new);
    if o == n {
        let none = Seq::<char>::empty();
        assert(text::split_pieces(none, text::Separator::Char('\n')).len() == 1);
        assert(all_changes(hunks_of(o, n)).len() == 0);
    } else {
        lemma_printed_rows(old, new);
        lemma_hunks_changes(hunks_of(o, n));
    }
}

/// The rows of a diff are its two header lines and those of the hunks.
proof fn lemma_printed_rows(old: Seq<char>, new: Seq<char>)
    requires
        text::lines_of(old) != text::lines_of(new),
    ensures
        has_rows(
            diff_text(old, new),
            seq!["--- hearth.yaml (current)"@, "+++ hearth.yaml (proposed)"@] + hunks_rows(
                hunks_of(text::lines_of(old), text::lines_of(new)),
            ),
        ),
        printed_rows(diff_text(old, new)) == hunks_rows(
            hunks_of(text::lines_of(old), text::lines_of(new)),
        ),
{
    let o = text::lines_of(old);
    let n = text::lines_of(new);
    let first = "--- hearth.yaml (current)"@;
    let second = "+++ hearth.yaml (proposed)"@;
    let none = Seq::<char>::empty();
    let br = text::Separator::Char('\n');
    reveal_strlit("--- hearth.yaml (current)\n");
    reveal_strlit("+++ hearth.yaml (proposed)\n");
    reveal_strlit("--- hearth.yaml (current)");
    reveal_strlit("+++ hearth.yaml (proposed)");
    text::lemma_lines_clean(old);
    text::lemma_lines_clean(new);
    lemma_hunks_applied(o, n);
    let hunks = hunks_of(o, n);
    assert(text::split_pieces(none, br) =~= Seq::<Seq<char>>::empty().push(none));
    assert(!first.contains('\n'));
    assert(!second.contains('\n'));
    text::lemma_split_ended(none, Seq::empty(), first);
    assert((none + first).push('\n') =~= "--- hearth.yaml (current)\n"@);
    text::lemma_split_ended("--- hearth.yaml (current)\n"@, seq![first], second);
    assert(Seq::<Seq<char>>::empty().push(first) =~= seq![first]);
    let head = "--- hearth.yaml (current)\n"@ + "+++ hearth.yaml (proposed)\n"@;
    assert(("--- hearth.yaml (current)\n"@ + second).push('\n') =~= head);
    assert(seq![first].push(second) =~= seq![first, second]);
    lemma_hunks_rows(head, seq![first, second], hunks);
    let pieces = text::split_pieces(diff_text(old, new), br);
    assert(pieces.subrange(2, pieces.len() - 1) =~= hunks_rows(hunks));
}

/// What happens next is decided by the lines at hand: a line that stands in both
/// is kept; a new line that none of the next ten old lines repeats is added; else
/// the old line goes.
pub proof fn law_next_edit(old: Seq<Seq<char>>, new: Seq<Seq<char>>, i: int, j: int)
    requires
        0 <= i <= old.len(),
        0 <= j <= new.len(),
        i < old.len() || j < new.len(),
    ensures
        next_edit(old, new, i, j) == Edit::Keep <==> i < old.len() && j < new.len() && old[i]
            == new[j],
        next_edit(old, new, i, j) == Edit::Add <==> j < new.len() && forall|k: int|
            i <= k < i + 10 && k < old.len() ==> #[trigger] old[k] != new[j],
{
    if i < old.len() && j < new.len() && old[i] == new[j] {
        assert(i <= i < i + 10 && old[i] == new[j]);
    }
}

/// Whether a hunk starts with three kept lines, or at the start of the text, and
/// a change follows.
spec fn leads(h: Hunk) -> bool {
    exists|k: int|
        {
            &&& #[trigger] changed_at(h.body, k)
            &&& k == 3 || (k < 3 && h.old_start == 0 && h.new_start == 0)
            &&& forall|j: int| 0 <= j < k ==> !changed_at(h.body, j)
        }
}

/// Whether a hunk ends with a change and `t` kept lines.
spec fn trails(h: Hunk, t: int) -> bool {
    &&& changed_at(h.body, h.body.len() - 1 - t)
    &&& forall|j: int| h.body.len() - 1 - t < j ==> !changed_at(h.body, j)
}

spec fn is_framed(p: Progress) -> bool {
    &&& forall|k: int|
        0 <= k < p.done.len() ==> leads(#[trigger] p.done[k]) && trails(p.done[k], 3)
    &&& p.open matches Some(h) ==> leads(h) && trails(h, p.trailing) && 0 <= p.trailing <= 2
}

proof fn lemma_leads_on(h: Hunk, e: Edit, line: Seq<char>)
    requires
        leads(h),
    ensures
        leads(grown(h, e, line)),
{
    let g = grown(h, e, line);
    let k = choose|k: int|
        {
            &&& #[trigger] changed_at(h.body, k)
            &&& k == 3 || (k < 3 && h.old_start == 0 && h.new_start == 0)
            &&& forall|j: int| 0 <= j < k ==> !changed_at(h.body, j)
        };
    assert(changed_at(g.body, k));
    assert forall|j: int| 0 <= j < k implies !changed_at(g.body, j) by {
        assert(!changed_at(h.body, j));
    }
}

proof fn lemma_framed_step(old: Seq<Seq<char>>, new: Seq<Seq<char>>, p: Progress)
    requires
        on_track(old, new, p),
        is_framed(p),
        unfinished(old, new, p),
    ensures
        is_framed(advance(old, new, p)),
{
    let q = advance(old, new, p);
    let e = next_edit(old, new, p.i, p.j);
    let line = if e == Edit::Add {
        new[p.j]
    } else {
        old[p.i]
    };
    match p.open {
        None => {
            if e != Edit::Keep {
                let h = opened(old, p.i, p.j);
                let g = grown(h, e, line);
                let k = h.body.len() as int;
                assert(changed_at(g.body, k));
                assert forall|j: int| 0 <= j < k implies !changed_at(g.body, j) by {
                    assert(g.body[j] == h.body[j]);
                }
                assert(leads(g));
                assert(trails(g, 0));
            }
        },
        Some(h) => {
            let g = grown(h, e, line);
            lemma_leads_on(h, e, line);
            if e == Edit::Keep {
                assert(changed_at(g.body, h.body.len() - 1 - p.trailing));
                assert forall|j: int| g.body.len() - 2 - p.trailing < j implies !changed_at(
                    g.body,
                    j,
                ) by {
                    if 0 <= j < h.body.len() {
                        assert(!changed_at(h.body, j));
                    }
                }
                assert(trails(g, p.trailing + 1));
                if p.trailing + 1 >= 3 {
                    assert forall|k: int| 0 <= k < q.done.len() implies leads(
                        #[trigger] q.done[k],
                    ) && trails(q.done[k], 3) by {
                        if k < p.done.len() {
                            assert(q.done[k] == p.done[k]);
                        }
                    }
                }
            } else {
                assert(trails(g, 0));
            }
        },
    }
}

proof fn lemma_framed(old: Seq<Seq<char>>, new: Seq<Seq<char>>, p: Progress)
    requires
        on_track(old, new, p),
        is_framed(p),
    ensures
        is_framed(completed(old, new, p)),
    decreases (old.len() - p.i) + (new.len() - p.j),
{
    if unfinished(old, new, p) {
        lemma_advance(old, new, p);
        lemma_framed_step(old, new, p);
        lemma_framed(old, new, advance(old, new, p));
    }
}

/// Each hunk shows three kept lines before its first change, less only at the
/// start of the texts, and three after its last change, less only in the last
/// hunk, at the end of the texts.
pub proof fn law_hunk_context(old: Seq<Seq<char>>, new: Seq<Seq<char>>, k: int)
    requires
        0 <= k < hunks_of(old, new).len(),
    ensures
        ({
            let h = hunks_of(old, new)[k];
            &&& exists|a: int|
                {
                    &&& #[trigger] changed_at(h.body, a)
                    &&& a == 3 || (a < 3 && h.old_start == 0 && h.new_start == 0)
                    &&& forall|j: int| 0 <= j < a ==> !changed_at(h.body, j)
                }
            &&& exists|b: int|
                {
                    &&& #[trigger] changed_at(h.body, b)
                    &&& forall|j: int| b < j ==> !changed_at(h.body, j)
                    &&& b == h.body.len() - 4 || (b > h.body.len() - 4 && k == hunks_of(
                        old,
                        new,
                    ).len() - 1 && h.old_start + old_side(h.body).len() == old.len() && h.new_start
                        + new_side(h.body).len() == new.len())
                }
        }),
{
    lemma_at_start(old, new);
    lemma_framed(old, new, at_start());
    lemma_completed(old, new, at_start());
    let p = completed(old, new, at_start());
    let h = hunks_of(old, new)[k];
    if k < p.done.len() {
        assert(h == p.done[k]);
        assert(leads(h) && trails(h, 3));
        assert(changed_at(h.body, h.body.len() - 4));
    } else {
        assert(p.open == Some(h));
        assert(leads(h) && trails(h, p.trailing));
        assert(changed_at(h.body, h.body.len() - 1 - p.trailing));
    }
}

// ---------------------------------------------------------------------------
// Computing the diff
// ---------------------------------------------------------------------------

fn same_lines(a: &Vec<String>, b: &Vec<String>) -> (r: bool)
    ensures
        r == (text::texts(a@) == text::texts(b@)),
{
    if a.len() != b.len() {
        proof {
            assert(text::texts(a@).len() != text::texts(b@).len());
        }
        return false;
    }
    let mut i: usize = 0;
    while i < a.len()
        invariant
            a.len() == b.len(),
            i <= a.len(),
            forall|k: int| 0 <= k < i ==> (#[trigger] a@[k])@ == b@[k]@,
        decreases a.len() - i,
    {
        if a[i] != b[i] {
            proof {
                assert(text::texts(a@)[i as int] != text::texts(b@)[i as int]);
            }
            return false;
        }
        i += 1;
    }
    proof {
        assert(text::texts(a@) =~= text::texts(b@));
    }
    true
}

fn soon(old: &Vec<String>, i: usize, line: &String) -> (r: bool)
    requires
        i <= old.len(),
    ensures
        r == stands_soon(text::texts(old@), i as int, line@),
{
    let ghost o = text::texts(old@);
    let end: usize = if old.len() - i > 10 {
        i + 10
    } else {
        old.len()
    };
    let mut k: usize = i;
    while k < end
        invariant
            o == text::texts(old@),
            i <= k <= end <= old.len(),
            end <= i + 10,
            forall|l: int| i <= l < k ==> #[trigger] o[l] != line@,
        decreases end - k,
    {
        if old[k] == *line {
            proof {
                assert(o[k as int] == line@);
            }
            return true;
        }
        k += 1;
    }
    false
}

fn push_line(body: &mut String, mark: &str, line: &str)
    ensures
        final(body)@ == (old(body)@ + (mark@ + line@)).push('\n'),
{
    let marked = mark.to_owned().concat(line);
    body.append(marked.as_str());
    body.push('\n');
}

fn header(old_start: usize, old_count: usize, new_start: usize, new_count: usize) -> (r: String)
    requires
        old_start < usize::MAX,
        new_start < usize::MAX,
    ensures
        r@ == "@@ -"@ + text::decimal((old_start + 1) as nat) + ","@ + text::decimal(
            old_count as nat,
        ) + " +"@ + text::decimal((new_start + 1) as nat) + ","@ + text::decimal(new_count as nat)
            + " @@\n"@,
{
    "@@ -".to_owned().concat(text::decimal_u64((old_start + 1) as u64).as_str()).concat(",").concat(
        text::decimal_u64(old_count as u64).as_str(),
    ).concat(" +").concat(text::decimal_u64((new_start + 1) as u64).as_str()).concat(",").concat(
        text::decimal_u64(new_count as u64).as_str(),
    ).concat(" @@\n")
}

/// Up to three kept lines before line `i`.
fn context_body(old: &Vec<String>, i: usize) -> (r: String)
    requires
        i <= old.len(),
    ensures
        forall|j: int| r@ == body_text(#[trigger] opened(text::texts(old@), i as int, j).body),
{
    let ghost o = text::texts(old@);
    let start: usize = if i >= 3 {
        i - 3
    } else {
        0
    };
    let mut body = String::new();
    let mut k: usize = start;
    let ghost mut shown: Seq<(Edit, Seq<char>)> = Seq::empty();
    while k < i
        invariant
            o == text::texts(old@),
            start == context_start(i as int),
            start <= k <= i <= old.len(),
            shown == Seq::new((k - start) as nat, |l: int| (Edit::Keep, o[start + l])),
            body@ == body_text(shown),
        decreases i - k,
    {
        push_line(&mut body, " ", old[k].as_str());
        proof {
            lemma_push(shown, Edit::Keep, o[k as int]);
            shown = shown.push((Edit::Keep, o[k as int]));
            assert(shown =~= Seq::new((k + 1 - start) as nat, |l: int| (Edit::Keep, o[start + l])));
        }
        k += 1;
    }
    proof {
        assert forall|j: int| body@ == body_text(#[trigger] opened(o, i as int, j).body) by {
            assert(opened(o, i as int, j).body =~= shown);
        }
    }
    body
}

/// Computes a unified diff between two YAML texts.
#[verifier::rlimit(40)]
pub fn compute_unified_diff(old: &str, new: &str) -> (r: String)
    ensures
        r@ == diff_text(old@, new@),
        patched(text::lines_of(old@), r@) == Some(text::lines_of(new@)),
        row_changes(printed_rows(r@)) == changes(
            edit_script(text::lines_of(old@), text::lines_of(new@)),
        ),
{
    proof {
        law_printed_diff_is_a_patch(old@, new@);
        law_printed_changes(old@, new@);
    }
    let old_lines = text::lines(old);
    let new_lines = text::lines(new);
    let ghost o = text::lines_of(old@);
    let ghost n = text::lines_of(new@);
    if same_lines(&old_lines, &new_lines) {
        return String::new();
    }
    let mut output = "--- hearth.yaml (current)\n".to_owned().concat(
        "+++ hearth.yaml (proposed)\n",
    );
    let ghost head = output@;
    let mut i: usize = 0;
    let mut j: usize = 0;
    let mut open: bool = false;
    let mut body = String::new();
    let mut old_start: usize = 0;
    let mut new_start: usize = 0;
    let mut old_count: usize = 0;
    let mut new_count: usize = 0;
    let mut trailing: usize = 0;
    let ghost mut p = at_start();
    proof {
        lemma_at_start(o, n);
        assert(output@ =~= head + hunks_text(p.done));
    }
    while i < old_lines.len() || j < new_lines.len()
        invariant
            o == text::texts(old_lines@),
            n == text::texts(new_lines@),
            on_track(o, n, p),
            completed(o, n, p) == completed(o, n, at_start()),
            i == p.i,
            j == p.j,
            output@ == head + hunks_text(p.done),
            open == (p.open is Some),
            old_start == 0 || old_start + 3 <= i,
            new_start == 0 || new_start + 3 <= j,
            open ==> {
                let h = p.open->0;
                &&& old_start == h.old_start
                &&& new_start == h.new_start
                &&& old_count == old_side(h.body).len()
                &&& new_count == new_side(h.body).len()
                &&& body@ == body_text(h.body)
                &&& trailing == p.trailing
            },
        decreases (old_lines.len() - i) + (new_lines.len() - j),
    {
        let ghost q = advance(o, n, p);
        proof {
            assert(o.len() == old_lines@.len() && n.len() == new_lines@.len());
            assert(unfinished(o, n, p));
            lemma_advance(o, n, p);
        }
        if i < old_lines.len() && j < new_lines.len() && old_lines[i] == new_lines[j] {
            if open {
                let ghost h = p.open->0;
                proof {
                    lemma_push(h.body, Edit::Keep, o[i as int]);
                }
                push_line(&mut body, " ", old_lines[i].as_str());
                old_count += 1;
                new_count += 1;
                trailing += 1;
                if trailing >= 3 {
                    let text = header(old_start, old_count, new_start, new_count).concat(
                        body.as_str(),
                    );
                    proof {
                        let g = grown(h, Edit::Keep, o[i as int]);
                        lemma_changes_push(p.done, g);
                        assert(text@ == hunk_text(g));
                        assert(head + (hunks_text(p.done) + hunk_text(g)) =~= head + hunks_text(
                            p.done,
                        ) + hunk_text(g));
                    }
                    output.append(text.as_str());
                    open = false;
                }
            }
            i += 1;
            j += 1;
        } else {
            let adding = j < new_lines.len() && (i >= old_lines.len() || !soon(
                &old_lines,
                i,
                &new_lines[j],
            ));
            if !open {
                proof {
                    lemma_opened(o, n, p);
                    let h = opened(o, p.i, p.j);
                    assert(h.body.len() == i - context_start(i as int));
                }
                old_start = if i >= 3 {
                    i - 3
                } else {
                    0
                };
                new_start = if j >= 3 {
                    j - 3
                } else {
                    0
                };
                old_count = i - old_start;
                new_count = j - new_start;
                body = context_body(&old_lines, i);
                open = true;
            }
            trailing = 0;
            let ghost h = match p.open {
                Some(h) => h,
                None => opened(o, p.i, p.j),
            };
            if adding {
                proof {
                    lemma_push(h.body, Edit::Add, n[j as int]);
                }
                push_line(&mut body, "+", new_lines[j].as_str());
                new_count += 1;
                j += 1;
            } else {
                proof {
                    lemma_push(h.body, Edit::Del, o[i as int]);
                }
                push_line(&mut body, "-", old_lines[i].as_str());
                old_count += 1;
                i += 1;
            }
        }
        proof {
            p = q;
        }
    }
    if open {
        let text = header(old_start, old_count, new_start, new_count).concat(body.as_str());
        proof {
            let h = p.open->0;
            lemma_changes_push(p.done, h);
            assert(text@ == hunk_text(h));
            assert(head + (hunks_text(p.done) + hunk_text(h)) =~= head + hunks_text(p.done)
                + hunk_text(h));
        }
        output.append(text.as_str());
    }
    output
}

} // verus!
