//! Statements that span lines, and lines that hold several statements.

use vstd::prelude::*;
use crate::shell;
use crate::shell::StepView;
use crate::statements;
use crate::statements::Mode;
use crate::text;

verus! {

/// `s` without its white space.
pub open spec fn solid(s: Seq<char>) -> Seq<char>
    decreases s.len(),
{
    if s.len() == 0 {
        Seq::empty()
    } else if text::is_space(s.last()) {
        solid(s.drop_last())
    } else {
        solid(s.drop_last()).push(s.last())
    }
}

/// The same texts, up to white space.
pub open spec fn same_solid(a: Seq<Seq<char>>, b: Seq<Seq<char>>) -> bool {
    &&& a.len() == b.len()
    &&& forall|i: int| 0 <= i < a.len() ==> solid(#[trigger] a[i]) == solid(b[i])
}

/// The lines as one text.
pub open spec fn whole(lines: Seq<Seq<char>>) -> Seq<char>
    decreases lines.len(),
{
    if lines.len() == 0 {
        Seq::empty()
    } else {
        whole(lines.drop_last()) + lines.last()
    }
}

/// What is pending after the lines.
pub open spec fn pending(lines: Seq<Seq<char>>) -> Seq<char>
    decreases lines.len(),
{
    if lines.len() == 0 {
        Seq::empty()
    } else {
        shell::pending_after(pending(lines.drop_last()), lines.last())
    }
}

/// The statements that the lines lead to, in order.
pub open spec fn run(lines: Seq<Seq<char>>) -> Seq<Seq<char>>
    decreases lines.len(),
{
    if lines.len() == 0 {
        Seq::empty()
    } else {
        run(lines.drop_last()) + match shell::step(pending(lines.drop_last()), lines.last()) {
            StepView::Run(list) => list,
            _ => Seq::empty(),
        }
    }
}

/// None of the lines leaves the shell.
pub open spec fn stays(lines: Seq<Seq<char>>) -> bool {
    forall|i: int|
        0 <= i < lines.len() ==> !shell::leaves(pending(lines.take(i)), #[trigger] lines[i])
}

/// The mode at the end of a text.
spec fn end_mode(s: Seq<char>) -> Mode {
    statements::mode_at(s, s.len() as int)
}

/// What stands behind the last terminator, comments left out.
spec fn tail(s: Seq<char>) -> Seq<char> {
    statements::kept(s, statements::last_end(s, s.len() as int), s.len() as int)
}

/// A text without terminators and comments.
spec fn clean(s: Seq<char>) -> bool {
    forall|i: int|
        0 <= i < s.len() ==> #[trigger] statements::kept_at(s, i) && !(statements::mode_at(s, i)
            is Comment)
}

/// The pending text as it stands before the next line.
spec fn spaced(p: Seq<char>) -> Seq<char> {
    if p.len() > 0 && !text::is_space(p.last()) {
        p + " "@
    } else {
        p
    }
}

/// A text and what is carried over from it: both are read on in the same way.
spec fn carried(u: Seq<char>, v: Seq<char>) -> bool {
    &&& end_mode(u) == end_mode(v)
    &&& !(end_mode(u) is Comment)
    &&& solid(tail(u)) == solid(v)
    &&& clean(v)
    &&& u.len() > 0 ==> u.last() != '-'
    &&& v.len() > 0 ==> v.last() != '-'
}

proof fn lemma_solid_push(s: Seq<char>, c: char)
    ensures
        solid(s.push(c)) == if text::is_space(c) {
            solid(s)
        } else {
            solid(s).push(c)
        },
{
    assert(s.push(c).drop_last() =~= s);
}

proof fn lemma_solid_drop_first(s: Seq<char>)
    requires
        s.len() > 0,
        text::is_space(s[0]),
    ensures
        solid(s.drop_first()) == solid(s),
    decreases s.len(),
{
    if s.len() == 1 {
        assert(s.drop_last() =~= Seq::<char>::empty());
        assert(s.drop_first() =~= Seq::<char>::empty());
    } else {
        lemma_solid_drop_first(s.drop_last());
        assert(s.drop_last().drop_first() =~= s.drop_first().drop_last());
    }
}

proof fn lemma_solid_trim(s: Seq<char>)
    ensures
        solid(text::trim(s)) == solid(s),
{
    lemma_solid_trim_start(s);
    lemma_solid_trim_end(text::trim_start(s));
}

proof fn lemma_solid_trim_start(s: Seq<char>)
    ensures
        solid(text::trim_start(s)) == solid(s),
    decreases s.len(),
{
    if s.len() > 0 && text::is_space(s[0]) {
        lemma_solid_trim_start(s.drop_first());
        lemma_solid_drop_first(s);
    }
}

proof fn lemma_solid_trim_end(s: Seq<char>)
    ensures
        solid(text::trim_end(s)) == solid(s),
    decreases s.len(),
{
    if s.len() > 0 && text::is_space(s.last()) {
        lemma_solid_trim_end(s.drop_last());
    }
}

/// A quoted region is opened by a quote.
proof fn lemma_quoted(s: Seq<char>, i: int)
    ensures
        statements::mode_at(s, i) matches Mode::Quoted(q) ==> statements::is_quote(q),
    decreases i,
{
    if i > 0 {
        lemma_quoted(s, i - 1);
    }
}

/// White space does not change the mode, but for the end of a comment.
proof fn lemma_space(s: Seq<char>, i: int)
    requires
        0 <= i < s.len(),
        text::is_space(s[i]),
        !(statements::mode_at(s, i) is Comment),
    ensures
        statements::mode_at(s, i + 1) == statements::mode_at(s, i),
{
    lemma_quoted(s, i);
}

/// A clean text is kept whole.
proof fn lemma_clean_kept(s: Seq<char>, n: int)
    requires
        clean(s),
        0 <= n <= s.len(),
    ensures
        statements::last_end(s, n) == 0,
        statements::kept(s, 0, n) == s.take(n),
        statements::complete(s, n).len() == 0,
    decreases n,
{
    if n > 0 {
        lemma_clean_kept(s, n - 1);
        assert(statements::kept_at(s, n - 1));
        assert(s.take(n) =~= s.take(n - 1).push(s[n - 1]));
    } else {
        assert(statements::kept(s, 0, 0) =~= s.take(0));
    }
}

proof fn lemma_clean_tail(s: Seq<char>)
    requires
        clean(s),
    ensures
        tail(s) == s,
        statements::statements(s).len() == 0,
{
    lemma_clean_kept(s, s.len() as int);
    assert(s.take(s.len() as int) =~= s);
}

/// What stands before a boundary is read without regard to what follows it, unless a comment mark
/// stands across the boundary.
proof fn lemma_boundary(u: Seq<char>, l: Seq<char>)
    requires
        u.len() > 0 && l.len() > 0 ==> u.last() != '-' || l[0] != '-',
    ensures
        statements::mode_at(u + l, u.len() as int) == end_mode(u),
        statements::last_end(u + l, u.len() as int) == statements::last_end(u, u.len() as int),
        statements::kept(
            u + l,
            statements::last_end(u + l, u.len() as int),
            u.len() as int,
        ) == tail(u),
        statements::complete(u + l, u.len() as int) == statements::statements(u),
{
    let n = u.len() as int;
    let t = u + l;
    assert(u.take(n) =~= t.take(n));
    statements::lemma_same_complete(u, t, n, n);
    statements::lemma_common_prefix(u, t, n);
    statements::lemma_last_end(u, n);
    if n > 0 {
        assert(u[n - 1] == t[n - 1]);
        assert(statements::mode_at(u, n - 1) == statements::mode_at(t, n - 1));
        assert(!statements::starts_comment(u, n - 1));
        assert(!statements::starts_comment(t, n - 1));
        assert(statements::kept_at(u, n - 1) == statements::kept_at(t, n - 1));
    }
    let a = statements::last_end(u, n);
    assert forall|i: int| a <= i < n implies statements::kept_at(u, i)
        == #[trigger] statements::kept_at(t, i) by {
        if i < n - 1 {
            assert(statements::mode_at(u, i) == statements::mode_at(t, i));
        }
    }
    statements::lemma_same_kept(u, t, a, n);
}

/// A text and what is carried over from it are read on in the same way, up to `n` characters of
/// the next line.
proof fn lemma_read_on(u: Seq<char>, v: Seq<char>, l: Seq<char>, n: int)
    requires
        carried(u, v),
        0 <= n <= l.len(),
    ensures
        statements::mode_at(u + l, u.len() + n) == statements::mode_at(v + l, v.len() + n),
        solid(
            statements::kept(
                u + l,
                statements::last_end(u + l, u.len() + n),
                u.len() + n,
            ),
        ) == solid(
            statements::kept(
                v + l,
                statements::last_end(v + l, v.len() + n),
                v.len() + n,
            ),
        ),
        same_solid(
            statements::complete(u + l, u.len() + n),
            statements::statements(u) + statements::complete(v + l, v.len() + n),
        ),
    decreases n,
{
    let s = u + l;
    let t = v + l;
    let a = u.len() as int;
    let b = v.len() as int;
    let before = statements::statements(u);
    if n == 0 {
        lemma_boundary(u, l);
        lemma_boundary(v, l);
        lemma_clean_tail(v);
        assert(before + statements::complete(t, b) =~= before);
    } else {
        let i = n - 1;
        lemma_read_on(u, v, l, i);
        statements::lemma_last_end(s, a + i);
        statements::lemma_last_end(t, b + i);
        assert(s[a + i] == l[i] && t[b + i] == l[i]);
        assert(statements::starts_comment(s, a + i) == statements::starts_comment(t, b + i)) by {
            if i + 1 < l.len() {
                assert(s[a + i + 1] == l[i + 1] && t[b + i + 1] == l[i + 1]);
            }
        }
        assert(statements::ends_at(s, a + i) == statements::ends_at(t, b + i));
        assert(statements::kept_at(s, a + i) == statements::kept_at(t, b + i));
        let ks = statements::kept(s, statements::last_end(s, a + i), a + i);
        let kt = statements::kept(t, statements::last_end(t, b + i), b + i);
        if statements::ends_at(s, a + i) {
            lemma_solid_trim(ks);
            lemma_solid_trim(kt);
            let cs = statements::complete(s, a + i);
            let ct = statements::complete(t, b + i);
            let x = statements::complete(s, a + n);
            let y = before + statements::complete(t, b + n);
            assert(x == cs.push(text::trim(ks)));
            assert(y =~= (before + ct).push(text::trim(kt)));
            assert forall|j: int| 0 <= j < x.len() implies solid(#[trigger] x[j]) == solid(y[j]) by {
                if j < cs.len() {
                    assert(solid(cs[j]) == solid((before + ct)[j]));
                }
            }
        } else {
            lemma_solid_push(ks, l[i]);
            lemma_solid_push(kt, l[i]);
        }
    }
}

/// What is kept of a text since its last terminator reads as the text itself does.
proof fn lemma_rescan(q: Seq<char>, n: int)
    requires
        statements::last_end(q, q.len() as int) <= n <= q.len(),
    ensures
        ({
            let k = statements::kept(q, statements::last_end(q, q.len() as int), n);
            &&& clean(k)
            &&& end_mode(k) == if statements::mode_at(q, n) is Comment {
                Mode::Plain
            } else {
                statements::mode_at(q, n)
            }
            &&& k.len() > 0 && k.last() == '-' && statements::mode_at(k, k.len() - 1) is Plain
                ==> {
                &&& n > 0
                &&& q[n - 1] == '-'
                &&& statements::mode_at(q, n - 1) is Plain
                &&& statements::kept_at(q, n - 1)
            }
        }),
    decreases n - statements::last_end(q, q.len() as int),
{
    let a = statements::last_end(q, q.len() as int);
    statements::lemma_last_end(q, q.len() as int);
    let k = statements::kept(q, a, n);
    if n == a {
        lemma_fresh(q, q.len() as int);
    } else {
        lemma_rescan(q, n - 1);
        lemma_no_end_behind(q, q.len() as int, n - 1);
        let k0 = statements::kept(q, a, n - 1);
        let m0 = end_mode(k0);
        let c = q[n - 1];
        let last = k0.len() as int;
        if statements::kept_at(q, n - 1) {
            assert(k == k0.push(c));
            assert(k.take(last) =~= k0.take(last));
            statements::lemma_common_prefix(k0, k, last);
            // a plain dash was read just before, and was no half of a comment mark
            if last > 0 {
                assert(statements::mode_at(k0, last - 1) == statements::mode_at(k, last - 1));
                assert(k0[last - 1] == k[last - 1]);
                assert(statements::kept_at(k0, last - 1));
                if statements::mode_at(k0, last - 1) is Plain && k0.last() == '-' {
                    assert(!statements::starts_comment(q, n - 2));
                    assert(c != '-');
                }
                assert(statements::mode_at(k0, last - 1) is Plain ==> !statements::starts_comment(
                    k,
                    last - 1,
                ));
                assert(!statements::starts_comment(k0, last - 1));
            }
            assert(statements::mode_at(k, last) == m0);
            assert forall|j: int| 0 <= j < k.len() implies #[trigger] statements::kept_at(k, j)
                && !(statements::mode_at(k, j) is Comment) by {
                if j < last {
                    assert(statements::kept_at(k0, j));
                    assert(statements::mode_at(k0, j) == statements::mode_at(k, j));
                    assert(k0[j] == k[j]);
                    if j < last - 1 {
                        assert(statements::kept_at(k0, j) == statements::kept_at(k, j));
                    }
                } else {
                    assert(!statements::starts_comment(k, last));
                    if statements::mode_at(q, n - 1) is Comment {
                        assert(c == '\n');
                    }
                }
            }
            assert(!statements::starts_comment(k, last));
        } else {
            assert(k == k0);
            if statements::mode_at(q, n - 1) is Plain {
                assert(statements::starts_comment(q, n - 1));
                if k.len() > 0 && k.last() == '-' && statements::mode_at(k, k.len() - 1) is Plain {
                    assert(statements::kept_at(q, n - 2));
                    assert(!statements::starts_comment(q, n - 2));
                    assert(false);
                }
            } else {
                assert(statements::mode_at(q, n - 1) is Comment);
                if k.len() > 0 && k.last() == '-' && statements::mode_at(k, k.len() - 1) is Plain {
                    assert(!statements::starts_comment(q, n - 2));
                    assert(false);
                }
            }
        }
    }
}

/// Behind the last terminator reading starts afresh.
proof fn lemma_fresh(q: Seq<char>, n: int)
    requires
        0 <= n,
    ensures
        statements::mode_at(q, statements::last_end(q, n)) is Plain,
    decreases n,
{
    if n > 0 {
        if statements::ends_at(q, n - 1) {
            assert(statements::mode_at(q, n) is Plain);
        } else {
            lemma_fresh(q, n - 1);
        }
    }
}

proof fn lemma_no_end_behind(q: Seq<char>, n: int, i: int)
    requires
        statements::last_end(q, n) <= i < n,
    ensures
        !statements::ends_at(q, i),
    decreases n,
{
    if n > 0 {
        if statements::ends_at(q, n - 1) {
        } else if i < n - 1 {
            lemma_no_end_behind(q, n - 1, i);
        }
    }
}

/// Leading white space does not matter.
proof fn lemma_skip_space(k: Seq<char>, i: int)
    requires
        k.len() > 0,
        text::is_space(k[0]),
        0 <= i < k.len(),
    ensures
        statements::mode_at(k.drop_first(), i) == statements::mode_at(k, i + 1),
    decreases i,
{
    let t = k.drop_first();
    if i == 0 {
        assert(statements::mode_at(k, 0) is Plain);
        assert(statements::mode_at(k, 1) is Plain);
    } else {
        lemma_skip_space(k, i - 1);
        assert(t[i - 1] == k[i]);
        assert(statements::starts_comment(t, i - 1) == statements::starts_comment(k, i)) by {
            if i < t.len() {
                assert(t[i] == k[i + 1]);
            }
        }
    }
}

proof fn lemma_trim_start_clean(k: Seq<char>)
    requires
        clean(k),
    ensures
        clean(text::trim_start(k)),
        end_mode(text::trim_start(k)) == end_mode(k),
    decreases k.len(),
{
    if k.len() > 0 && text::is_space(k[0]) {
        let t = k.drop_first();
        lemma_skip_space(k, k.len() - 1);
        assert forall|j: int| 0 <= j < t.len() implies #[trigger] statements::kept_at(t, j) && !(
        statements::mode_at(t, j) is Comment) by {
            lemma_skip_space(k, j);
            assert(statements::kept_at(k, j + 1));
            assert(t[j] == k[j + 1]);
            assert(statements::starts_comment(t, j) == statements::starts_comment(k, j + 1)) by {
                if j + 1 < t.len() {
                    assert(t[j + 1] == k[j + 2]);
                }
            }
        }
        lemma_trim_start_clean(t);
    }
}

/// White space at the end of a clean text does not matter.
proof fn lemma_end_space(t: Seq<char>, c: char)
    requires
        text::is_space(c),
        clean(t) && !(end_mode(t) is Comment) || clean(t.push(c)),
    ensures
        clean(t),
        clean(t.push(c)),
        end_mode(t.push(c)) == end_mode(t),
{
    let k = t.push(c);
    let n = t.len() as int;
    assert(t.take(n) =~= k.take(n));
    statements::lemma_common_prefix(t, k, n);
    if n > 0 {
        assert(statements::mode_at(t, n - 1) == statements::mode_at(k, n - 1));
        assert(t[n - 1] == k[n - 1]);
        assert(!statements::starts_comment(t, n - 1));
        assert(!statements::starts_comment(k, n - 1));
        assert(statements::kept_at(t, n - 1) == statements::kept_at(k, n - 1));
    }
    assert(statements::mode_at(k, n) == end_mode(t));
    assert(k[n] == c);
    assert(!statements::starts_comment(k, n));
    if clean(k) {
        assert(statements::kept_at(k, n));
    }
    lemma_space(k, n);
    assert forall|j: int| 0 <= j < n implies statements::kept_at(t, j) == #[trigger]
    statements::kept_at(k, j) && statements::mode_at(t, j) == statements::mode_at(k, j) by {
        assert(statements::mode_at(t, j) == statements::mode_at(k, j));
    }
    if clean(k) {
        assert forall|j: int| 0 <= j < n implies #[trigger] statements::kept_at(t, j) && !(
        statements::mode_at(t, j) is Comment) by {
            assert(statements::kept_at(k, j));
        }
    } else {
        assert forall|j: int| 0 <= j < k.len() implies #[trigger] statements::kept_at(k, j) && !(
        statements::mode_at(k, j) is Comment) by {
            if j < n {
                assert(statements::kept_at(t, j));
            }
        }
    }
}

proof fn lemma_trim_end_clean(k: Seq<char>)
    requires
        clean(k),
    ensures
        clean(text::trim_end(k)),
        end_mode(text::trim_end(k)) == end_mode(k),
        text::trim_end(k).len() > 0 ==> !text::is_space(text::trim_end(k).last()),
    decreases k.len(),
{
    if k.len() > 0 && text::is_space(k.last()) {
        let t = k.drop_last();
        assert(t.push(k.last()) =~= k);
        lemma_end_space(t, k.last());
        lemma_trim_end_clean(t);
    }
}

/// A text that ends with a line end, and what is pending of it.
proof fn lemma_remainder_is_carried(q: Seq<char>)
    requires
        q.len() > 0,
        q.last() == '\n',
    ensures
        carried(q, spaced(statements::remainder(q))),
        solid(statements::remainder(q)) == solid(tail(q)),
{
    let k = tail(q);
    let r = statements::remainder(q);
    lemma_line_end(q);
    statements::lemma_last_end(q, q.len() as int);
    lemma_rescan(q, q.len() as int);
    let s = text::trim_start(k);
    lemma_trim_start_clean(k);
    lemma_trim_end_clean(s);
    lemma_solid_trim(k);
    if r.len() > 0 {
        assert(r + " "@ =~= r.push(' ')) by {
            reveal_strlit(" ");
        }
        lemma_end_space(r, ' ');
        lemma_solid_push(r, ' ');
    }
}

proof fn lemma_line_end(q: Seq<char>)
    requires
        q.len() > 0,
        q.last() == '\n',
    ensures
        !(end_mode(q) is Comment),
{
    let n = q.len() as int;
    assert(q[n - 1] == '\n');
    assert(!statements::starts_comment(q, n - 1));
}

/// A blank text is clean.
proof fn lemma_blank(q: Seq<char>, n: int)
    requires
        forall|i: int| 0 <= i < q.len() ==> text::is_space(#[trigger] q[i]),
        0 <= n <= q.len(),
    ensures
        statements::mode_at(q, n) is Plain,
        n < q.len() ==> statements::kept_at(q, n),
    decreases n,
{
    if n > 0 {
        lemma_blank(q, n - 1);
        assert(text::is_space(q[n - 1]));
        lemma_space(q, n - 1);
    }
    if n < q.len() {
        assert(text::is_space(q[n]));
    }
}

/// A text that trims to nothing is blank.
proof fn lemma_trims_to_nothing(s: Seq<char>)
    requires
        text::trim(s).len() == 0,
    ensures
        forall|i: int| 0 <= i < s.len() ==> text::is_space(#[trigger] s[i]),
    decreases s.len(),
{
    let t = text::trim_start(s);
    if s.len() > 0 && text::is_space(s[0]) {
        lemma_trims_to_nothing(s.drop_first());
        assert forall|i: int| 0 <= i < s.len() implies text::is_space(#[trigger] s[i]) by {
            if i > 0 {
                assert(s[i] == s.drop_first()[i - 1]);
            }
        }
    } else if s.len() > 0 {
        lemma_trim_end_keeps_first(s);
    }
}

proof fn lemma_trim_end_keeps_first(s: Seq<char>)
    requires
        s.len() > 0,
        !text::is_space(s[0]),
    ensures
        text::trim_end(s).len() > 0,
    decreases s.len(),
{
    if text::is_space(s.last()) {
        assert(s.drop_last()[0] == s[0]);
        lemma_trim_end_keeps_first(s.drop_last());
    }
}

proof fn lemma_lines(lines: Seq<Seq<char>>)
    requires
        forall|i: int| 0 <= i < lines.len() ==> (#[trigger] lines[i]).len() > 0 && lines[i].last() == '\n',
        stays(lines),
    ensures
        carried(whole(lines), spaced(pending(lines))),
        solid(pending(lines)) == solid(tail(whole(lines))),
        same_solid(run(lines), statements::statements(whole(lines))),
    decreases lines.len(),
{
    if lines.len() == 0 {
        assert(tail(Seq::<char>::empty()) =~= Seq::<char>::empty());
        assert(run(lines) =~= statements::statements(whole(lines)));
    } else {
        let front = lines.drop_last();
        let l = lines.last();
        assert forall|i: int| 0 <= i < front.len() implies (#[trigger] front[i]).len() > 0
            && front[i].last() == '\n' by {
            assert(front[i] == lines[i]);
        }
        assert forall|i: int| 0 <= i < front.len() implies !shell::leaves(
            pending(front.take(i)),
            #[trigger] front[i],
        ) by {
            assert(front[i] == lines[i]);
            assert(front.take(i) =~= lines.take(i));
        }
        assert(lines.take(lines.len() - 1) =~= front);
        lemma_lines(front);
        assert(l == lines[lines.len() - 1]);
        let u = whole(front);
        let p = pending(front);
        let v = spaced(p);
        let w = u + l;
        let q = v + l;
        assert(q =~= shell::accumulated(p, l));
        lemma_read_on(u, v, l, l.len() as int);
        assert(w.last() == '\n' && q.last() == '\n');
        lemma_line_end(w);
        let ran = run(front);
        let base = statements::statements(u);
        let new = statements::statements(q);
        assert(same_solid(statements::statements(w), base + new));
        assert(same_solid(ran + new, statements::statements(w))) by {
            let x = ran + new;
            let y = statements::statements(w);
            assert forall|j: int| 0 <= j < x.len() implies solid(#[trigger] x[j]) == solid(y[j]) by {
                assert(solid(y[j]) == solid((base + new)[j]));
                if j < ran.len() {
                    assert(solid(ran[j]) == solid(base[j]));
                }
            }
        }
        if shell::is_blank(q, l) {
            lemma_trims_to_nothing(q);
            assert forall|i: int| 0 <= i < q.len() implies #[trigger] statements::kept_at(q, i) && !(
            statements::mode_at(q, i) is Comment) by {
                lemma_blank(q, i);
            }
            lemma_clean_tail(q);
            assert(text::is_space(q.last()));
            assert(run(lines) =~= ran + new);
        } else {
            lemma_remainder_is_carried(q);
            assert(run(lines) == ran + new);
        }
    }
}

/// Statements may span lines, and lines may hold several statements: as long as no line leaves
/// the shell, reading line by line leads to the statements of the whole input, up to white space,
/// and leaves pending what it leaves.
pub proof fn law_lines_make_statements(lines: Seq<Seq<char>>)
    requires
        forall|i: int| 0 <= i < lines.len() ==> (#[trigger] lines[i]).len() > 0 && lines[i].last() == '\n',
        stays(lines),
    ensures
        same_solid(run(lines), statements::statements(whole(lines))),
        solid(pending(lines)) == solid(statements::remainder(whole(lines))),
{
    lemma_lines(lines);
    lemma_solid_trim(tail(whole(lines)));
}

/// Trimming what is trimmed changes nothing.
proof fn lemma_trimmed(s: Seq<char>)
    ensures
        text::trim(text::trim(s)) == text::trim(s),
{
    let t = text::trim_start(s);
    lemma_trim_start_first(s);
    lemma_trim_end_ends(t);
}

proof fn lemma_trim_start_first(s: Seq<char>)
    ensures
        text::trim_start(s).len() > 0 ==> !text::is_space(text::trim_start(s)[0]),
    decreases s.len(),
{
    if s.len() > 0 && text::is_space(s[0]) {
        lemma_trim_start_first(s.drop_first());
    }
}

proof fn lemma_trim_end_ends(s: Seq<char>)
    ensures
        text::trim_end(s).len() > 0 ==> text::trim_end(s)[0] == s[0],
        text::trim_end(s).len() > 0 ==> !text::is_space(text::trim_end(s).last()),
        text::trim_end(s).len() <= s.len(),
    decreases s.len(),
{
    if s.len() > 0 && text::is_space(s.last()) {
        lemma_trim_end_ends(s.drop_last());
    }
}

/// What is pending stays as it is when it is read again: it ends no statement, and nothing of it
/// is lost.
pub proof fn law_remainder_waits(s: Seq<char>)
    ensures
        statements::statements(statements::remainder(s)).len() == 0,
        statements::remainder(statements::remainder(s)) == statements::remainder(s),
{
    let k = tail(s);
    statements::lemma_last_end(s, s.len() as int);
    lemma_rescan(s, s.len() as int);
    lemma_trim_start_clean(k);
    lemma_trim_end_clean(text::trim_start(k));
    lemma_clean_tail(text::trim(k));
    lemma_trimmed(k);
}

/// A statement with its terminator is that statement and nothing else.
pub proof fn law_statement_stands_alone(s: Seq<char>, i: int)
    requires
        0 <= i < statements::statements(s).len(),
    ensures
        ({
            let statement = statements::statements(s)[i];
            &&& statements::statements(statement.push(';')) == seq![statement]
            &&& statements::remainder(statement.push(';')).len() == 0
        }),
{
    lemma_stands_alone(s, s.len() as int, i);
}

proof fn lemma_stands_alone(s: Seq<char>, n: int, i: int)
    requires
        0 <= n <= s.len(),
        0 <= i < statements::complete(s, n).len(),
    ensures
        ({
            let statement = statements::complete(s, n)[i];
            &&& statements::statements(statement.push(';')) == seq![statement]
            &&& statements::remainder(statement.push(';')).len() == 0
        }),
    decreases n,
{
    let m = n - 1;
    if !statements::ends_at(s, m) || i < statements::complete(s, m).len() {
        lemma_stands_alone(s, m, i);
    } else {
        let q = s.take(m);
        let l = s.skip(m);
        assert(q + l =~= s);
        assert(l[0] == ';');
        lemma_boundary(q, l);
        statements::lemma_last_end(q, m);
        lemma_rescan(q, m);
        let k = tail(q);
        lemma_trim_start_clean(k);
        lemma_trim_end_clean(text::trim_start(k));
        lemma_trimmed(k);
        let t = text::trim(k);
        assert(t == statements::complete(s, n)[i]);
        lemma_clean_tail(t);
        let w = t.push(';');
        assert(w =~= t + seq![';']);
        lemma_boundary(t, seq![';']);
        let e = t.len() as int;
        assert(w[e] == ';');
        assert(statements::ends_at(w, e));
        assert(statements::complete(w, e).len() == 0);
        assert(statements::complete(w, e + 1) =~= seq![t]);
        assert(statements::last_end(w, e + 1) == e + 1);
        assert(statements::kept(w, e + 1, e + 1) =~= Seq::<char>::empty());
    }
}

} // verus!
