//! Splitting input into statements.

use vstd::prelude::*;
use crate::text;

verus! {

/// How a character of the input is read.
#[derive(Debug, Clone, Copy, PartialEq, Eq, Structural)]
pub enum Mode {
    Plain,
    /// Inside a region that this character opened and closes. A doubled closing character closes
    /// the region and opens the next one, so it stays inside.
    Quoted(char),
    /// Inside a `--` comment, up to the end of the line.
    Comment,
}

pub open spec fn is_quote(c: char) -> bool {
    c == '\'' || c == '"' || c == '`'
}

/// A comment starts at `i`.
pub open spec fn starts_comment(s: Seq<char>, i: int) -> bool {
    s[i] == '-' && i + 1 < s.len() && s[i + 1] == '-'
}

/// The mode in which the character at `i` is read.
pub open spec fn mode_at(s: Seq<char>, i: int) -> Mode
    decreases i,
{
    if i <= 0 {
        Mode::Plain
    } else {
        let c = s[i - 1];
        match mode_at(s, i - 1) {
            Mode::Comment => if c == '\n' {
                Mode::Plain
            } else {
                Mode::Comment
            },
            Mode::Quoted(q) => if c == q {
                Mode::Plain
            } else {
                Mode::Quoted(q)
            },
            Mode::Plain => if is_quote(c) {
                Mode::Quoted(c)
            } else if starts_comment(s, i - 1) {
                Mode::Comment
            } else {
                Mode::Plain
            },
        }
    }
}

/// A statement ends at `i`: a semicolon outside quotes and comments.
pub open spec fn ends_at(s: Seq<char>, i: int) -> bool {
    s[i] == ';' && mode_at(s, i) == Mode::Plain
}

/// The character at `i` belongs to the text of a statement. Comments do not, but for the end of
/// their line; nor does a terminator.
pub open spec fn kept_at(s: Seq<char>, i: int) -> bool {
    match mode_at(s, i) {
        Mode::Plain => s[i] != ';' && !starts_comment(s, i),
        Mode::Quoted(_) => true,
        Mode::Comment => s[i] == '\n',
    }
}

/// The characters from `a` to `b` that belong to the text of a statement.
pub open spec fn kept(s: Seq<char>, a: int, b: int) -> Seq<char>
    decreases b - a,
{
    if b <= a {
        Seq::empty()
    } else if kept_at(s, b - 1) {
        kept(s, a, b - 1).push(s[b - 1])
    } else {
        kept(s, a, b - 1)
    }
}

/// The position behind the last terminator before `n`.
pub open spec fn last_end(s: Seq<char>, n: int) -> int
    decreases n,
{
    if n <= 0 {
        0
    } else if ends_at(s, n - 1) {
        n
    } else {
        last_end(s, n - 1)
    }
}

/// The statements that end before `n`: for each terminator, the text since the one before.
pub open spec fn complete(s: Seq<char>, n: int) -> Seq<Seq<char>>
    decreases n,
{
    if n <= 0 {
        Seq::empty()
    } else if ends_at(s, n - 1) {
        complete(s, n - 1).push(text::trim(kept(s, last_end(s, n - 1), n - 1)))
    } else {
        complete(s, n - 1)
    }
}

/// The complete statements of an input.
pub open spec fn statements(s: Seq<char>) -> Seq<Seq<char>> {
    complete(s, s.len() as int)
}

/// What stands behind the last terminator.
pub open spec fn remainder(s: Seq<char>) -> Seq<char> {
    text::trim(kept(s, last_end(s, s.len() as int), s.len() as int))
}

/// Splits input into complete statements and the rest, which still awaits its terminator.
///
/// A statement ends at a semicolon outside of `'..'`, `".."`, `` `..` `` and `--` comments.
/// Comments are left out, so that they never swallow a statement.
pub fn split_complete_statements(buffer: &str) -> (r: (Vec<String>, String))
    ensures
        text::views(r.0@) == statements(buffer@),
        r.1@ == remainder(buffer@),
{
    let v = text::chars_of(buffer);
    let ghost s = buffer@;
    let mut done: Vec<String> = Vec::new();
    let mut current = String::new();
    let mut mode = Mode::Plain;
    let mut i: usize = 0;
    assert(text::views(done@) =~= complete(s, 0));
    while i < v.len()
        invariant
            i <= v.len(),
            v@ == s,
            mode == mode_at(s, i as int),
            last_end(s, i as int) <= i,
            current@ == kept(s, last_end(s, i as int), i as int),
            text::views(done@) == complete(s, i as int),
        decreases v.len() - i,
    {
        let c = v[i];
        let comment = c == '-' && i + 1 < v.len() && v[i + 1] == '-';
        assert(comment == starts_comment(s, i as int));
        let ghost before = text::views(done@);
        match mode {
            Mode::Comment => {
                if c == '\n' {
                    current.push('\n');
                    mode = Mode::Plain;
                }
            },
            Mode::Quoted(q) => {
                current.push(c);
                if c == q {
                    mode = Mode::Plain;
                }
            },
            Mode::Plain => {
                if c == '\'' || c == '"' || c == '`' {
                    current.push(c);
                    mode = Mode::Quoted(c);
                } else if comment {
                    mode = Mode::Comment;
                } else if c == ';' {
                    done.push(text::trimmed(current.as_str()).to_owned());
                    assert(text::views(done@) =~= before.push(text::trim(current@)));
                    current = String::new();
                } else {
                    current.push(c);
                }
            },
        }
        i = i + 1;
    }
    let rest = text::trimmed(current.as_str()).to_owned();
    (done, rest)
}

/// The mode in which what follows a text is read.
pub fn final_mode(s: &str) -> (r: Mode)
    ensures
        r == mode_at(s@, s@.len() as int),
{
    let v = text::chars_of(s);
    let mut mode = Mode::Plain;
    let mut i: usize = 0;
    while i < v.len()
        invariant
            i <= v.len(),
            v@ == s@,
            mode == mode_at(s@, i as int),
        decreases v.len() - i,
    {
        let c = v[i];
        mode = match mode {
            Mode::Comment => if c == '\n' {
                Mode::Plain
            } else {
                Mode::Comment
            },
            Mode::Quoted(q) => if c == q {
                Mode::Plain
            } else {
                Mode::Quoted(q)
            },
            Mode::Plain => if c == '\'' || c == '"' || c == '`' {
                Mode::Quoted(c)
            } else if c == '-' && i + 1 < v.len() && v[i + 1] == '-' {
                Mode::Comment
            } else {
                Mode::Plain
            },
        };
        i = i + 1;
    }
    mode
}

/// The mode, the terminators and the text of the positions before `n` do not depend on what
/// follows `n`.
pub proof fn lemma_common_prefix(s: Seq<char>, t: Seq<char>, n: int)
    requires
        0 <= n <= s.len(),
        n <= t.len(),
        s.take(n) == t.take(n),
    ensures
        forall|i: int| 0 <= i < n ==> mode_at(s, i) == #[trigger] mode_at(t, i),
        forall|i: int| 0 <= i < n ==> ends_at(s, i) == #[trigger] ends_at(t, i),
        forall|i: int| 0 <= i < n - 1 ==> kept_at(s, i) == #[trigger] kept_at(t, i),
{
    assert forall|i: int| 0 <= i < n implies s[i] == t[i] by {
        assert(s.take(n)[i] == s[i] && t.take(n)[i] == t[i]);
    }
    assert forall|i: int| 0 <= i < n implies mode_at(s, i) == #[trigger] mode_at(t, i) by {
        lemma_same_mode(s, t, n, i);
    }
    assert forall|i: int| 0 <= i < n implies ends_at(s, i) == #[trigger] ends_at(t, i) by {
        assert(mode_at(s, i) == mode_at(t, i));
    }
    assert forall|i: int| 0 <= i < n - 1 implies kept_at(s, i) == #[trigger] kept_at(t, i) by {
        assert(mode_at(s, i) == mode_at(t, i));
    }
}

proof fn lemma_same_mode(s: Seq<char>, t: Seq<char>, n: int, i: int)
    requires
        0 <= i < n <= s.len(),
        n <= t.len(),
        forall|j: int| 0 <= j < n ==> s[j] == t[j],
    ensures
        mode_at(s, i) == mode_at(t, i),
    decreases i,
{
    if i > 0 {
        lemma_same_mode(s, t, n, i - 1);
        assert(s[i - 1] == t[i - 1]);
        assert(s[i] == t[i]);
    }
}

pub proof fn lemma_same_kept(s: Seq<char>, t: Seq<char>, a: int, b: int)
    requires
        forall|i: int| a <= i < b ==> s[i] == t[i],
        forall|i: int| a <= i < b ==> kept_at(s, i) == #[trigger] kept_at(t, i),
    ensures
        kept(s, a, b) == kept(t, a, b),
    decreases b - a,
{
    if a < b {
        lemma_same_kept(s, t, a, b - 1);
        assert(kept_at(s, b - 1) == kept_at(t, b - 1));
    }
}

pub proof fn lemma_last_end(s: Seq<char>, n: int)
    requires
        0 <= n,
    ensures
        0 <= last_end(s, n) <= n,
    decreases n,
{
    if n > 0 && !ends_at(s, n - 1) {
        lemma_last_end(s, n - 1);
    }
}

pub proof fn lemma_same_complete(s: Seq<char>, t: Seq<char>, n: int, k: int)
    requires
        0 <= k <= n <= s.len(),
        n <= t.len(),
        s.take(n) == t.take(n),
    ensures
        complete(s, k) == complete(t, k),
        last_end(s, k) == last_end(t, k),
    decreases k,
{
    if k > 0 {
        lemma_same_complete(s, t, n, k - 1);
        lemma_common_prefix(s, t, n);
        assert(ends_at(s, k - 1) == ends_at(t, k - 1));
        if ends_at(s, k - 1) {
            lemma_last_end(s, k - 1);
            assert forall|i: int| 0 <= i < n implies s[i] == t[i] by {
                assert(s.take(n)[i] == s[i] && t.take(n)[i] == t[i]);
            }
            lemma_same_kept(s, t, last_end(s, k - 1), k - 1);
        }
    }
}

proof fn lemma_complete_grows(s: Seq<char>, a: int, b: int)
    requires
        0 <= a <= b,
    ensures
        complete(s, a).is_prefix_of(complete(s, b)),
    decreases b - a,
{
    if a < b {
        lemma_complete_grows(s, a, b - 1);
        let x = complete(s, a);
        let y = complete(s, b - 1);
        assert(x =~= y.take(x.len() as int));
        assert(x =~= complete(s, b).take(x.len() as int));
    } else {
        assert(complete(s, a) =~= complete(s, b).take(complete(s, a).len() as int));
    }
}

/// A complete statement does not depend on the input that follows its terminator: more input
/// adds statements behind those already there.
pub proof fn law_statements_are_final(input: Seq<char>, more: Seq<char>)
    ensures
        statements(input).is_prefix_of(statements(input + more)),
{
    let t = input + more;
    assert(input.take(input.len() as int) =~= t.take(input.len() as int));
    lemma_same_complete(input, t, input.len() as int, input.len() as int);
    lemma_complete_grows(t, input.len() as int, t.len() as int);
}

/// Behind a terminator at `k`, reading starts afresh: position `k + 1 + i` is read as position
/// `i` of the rest is.
proof fn lemma_shift(s: Seq<char>, k: int, n: int)
    requires
        0 <= k < s.len(),
        ends_at(s, k),
        0 <= n <= s.len() - k - 1,
    ensures
        mode_at(s, k + 1 + n) == mode_at(s.skip(k + 1), n),
        last_end(s, k + 1 + n) == k + 1 + last_end(s.skip(k + 1), n),
        kept(s, last_end(s, k + 1 + n), k + 1 + n) == kept(
            s.skip(k + 1),
            last_end(s.skip(k + 1), n),
            n,
        ),
        complete(s, k + 1 + n) == complete(s, k + 1) + complete(s.skip(k + 1), n),
    decreases n,
{
    let t = s.skip(k + 1);
    let base = k + 1;
    if n == 0 {
        assert(last_end(s, base) == base);
        assert(last_end(t, 0) == 0);
        assert(kept(s, base, base) =~= kept(t, 0, 0));
        assert(complete(t, 0) =~= Seq::<Seq<char>>::empty());
        assert(complete(s, base) + complete(t, 0) =~= complete(s, base));
    } else {
        lemma_shift(s, k, n - 1);
        lemma_last_end(t, n - 1);
        let i = n - 1;
        assert(s[base + i] == t[i]);
        assert(starts_comment(s, base + i) == starts_comment(t, i)) by {
            if i + 1 < t.len() {
                assert(s[base + i + 1] == t[i + 1]);
            }
        }
        assert(ends_at(s, base + i) == ends_at(t, i));
        assert(kept_at(s, base + i) == kept_at(t, i));
        if ends_at(t, i) {
            assert(complete(s, base) + complete(t, i).push(text::trim(kept(t, last_end(t, i), i)))
                =~= (complete(s, base) + complete(t, i)).push(
                text::trim(kept(t, last_end(t, i), i)),
            ));
        }
    }
}

/// Statements that share a line are read one after the other: from a terminator on, the input is
/// split as if it started there.
pub proof fn law_terminator_restarts(input: Seq<char>, k: int)
    requires
        0 <= k < input.len(),
        ends_at(input, k),
    ensures
        statements(input) == statements(input.take(k + 1)) + statements(input.skip(k + 1)),
        remainder(input) == remainder(input.skip(k + 1)),
{
    let n = input.len() - k - 1;
    let first = input.take(k + 1);
    lemma_shift(input, k, n);
    assert(first.take(k + 1) =~= input.take(k + 1));
    lemma_same_complete(first, input, k + 1, k + 1);
}

/// Inside a quoted region nothing ends a statement: a region alone is no statement but the start
/// of one, and it is kept as it stands.
pub proof fn law_quoted_region_is_kept(q: char, inside: Seq<char>)
    requires
        is_quote(q),
        !inside.contains(q),
    ensures
        statements(seq![q] + inside + seq![q]).len() == 0,
        remainder(seq![q] + inside + seq![q]) == text::trim(seq![q] + inside + seq![q]),
{
    let s = seq![q] + inside + seq![q];
    lemma_inside(q, inside, s, s.len() as int);
    assert(s.take(s.len() as int) =~= s);
}

proof fn lemma_inside(q: char, inside: Seq<char>, s: Seq<char>, n: int)
    requires
        is_quote(q),
        !inside.contains(q),
        s == seq![q] + inside + seq![q],
        0 <= n <= s.len(),
    ensures
        0 < n < s.len() ==> mode_at(s, n) == Mode::Quoted(q),
        complete(s, n).len() == 0,
        last_end(s, n) == 0,
        kept(s, 0, n) == s.take(n),
    decreases n,
{
    if n > 0 {
        lemma_inside(q, inside, s, n - 1);
        if n > 1 {
            if n - 1 < s.len() - 1 {
                assert(s[n - 1] == inside[n - 2]);
                assert(inside.contains(inside[n - 2]));
            }
            assert(mode_at(s, n - 1) == Mode::Quoted(q));
        } else {
            assert(s[0] == q);
            assert(mode_at(s, 0) == Mode::Plain);
        }
        assert(kept_at(s, n - 1));
        assert(s.take(n) =~= s.take(n - 1).push(s[n - 1]));
    } else {
        assert(kept(s, 0, 0) =~= s.take(0));
    }
}

/// A comment is left out: a line that starts with one counts as its line end alone.
pub proof fn law_comment_is_left_out(comment: Seq<char>, rest: Seq<char>)
    requires
        !comment.contains('\n'),
    ensures
        statements(seq!['-', '-'] + comment + seq!['\n'] + rest) == statements(seq!['\n'] + rest),
        remainder(seq!['-', '-'] + comment + seq!['\n'] + rest) == remainder(seq!['\n'] + rest),
{
    let s = seq!['-', '-'] + comment + seq!['\n'] + rest;
    let t = seq!['\n'] + rest;
    let k = comment.len() + 2;
    assert(s.subrange(2, 2 + comment.len() as int) =~= comment);
    lemma_in_comment(comment, s, k as int);
    assert(s.skip(k as int) =~= t);
    lemma_after_comment(s, t, k as int, t.len() as int);
}

proof fn lemma_in_comment(comment: Seq<char>, s: Seq<char>, n: int)
    requires
        !comment.contains('\n'),
        seq!['-', '-'].is_prefix_of(s),
        comment.len() + 2 <= s.len(),
        s.subrange(2, 2 + comment.len() as int) == comment,
        0 <= n <= comment.len() + 2,
    ensures
        n > 0 ==> mode_at(s, n) == Mode::Comment,
        complete(s, n).len() == 0,
        last_end(s, n) == 0,
        kept(s, 0, n).len() == 0,
    decreases n,
{
    if n > 0 {
        lemma_in_comment(comment, s, n - 1);
        assert(seq!['-', '-'] =~= s.take(2));
        assert(s[0] == s.take(2)[0] && s[1] == s.take(2)[1]);
        if n == 1 {
            assert(starts_comment(s, 0));
            assert(mode_at(s, 0) == Mode::Plain);
        } else {
            if n > 2 {
                assert(s[n - 1] == s.subrange(2, 2 + comment.len() as int)[n - 3]);
                assert(comment.contains(comment[n - 3]));
            }
            assert(mode_at(s, n - 1) == Mode::Comment);
            assert(s[n - 1] != '\n');
        }
    }
}

proof fn lemma_after_comment(s: Seq<char>, t: Seq<char>, k: int, n: int)
    requires
        0 < k <= s.len(),
        s.skip(k) == t,
        t.len() > 0,
        t[0] == '\n',
        mode_at(s, k) == Mode::Comment,
        complete(s, k).len() == 0,
        last_end(s, k) == 0,
        kept(s, 0, k).len() == 0,
        0 <= n <= t.len(),
    ensures
        n > 0 ==> mode_at(s, k + n) == mode_at(t, n),
        complete(s, k + n) == complete(t, n),
        last_end(t, n) == 0 ==> last_end(s, k + n) == 0,
        last_end(t, n) != 0 ==> last_end(s, k + n) == k + last_end(t, n),
        kept(s, last_end(s, k + n), k + n) == kept(t, last_end(t, n), n),
    decreases n,
{
    if n == 0 {
        assert(complete(s, k) =~= complete(t, 0));
        assert(kept(s, 0, k) =~= kept(t, 0, 0));
    } else {
        lemma_after_comment(s, t, k, n - 1);
        lemma_last_end(t, n - 1);
        lemma_last_end(s, k + n - 1);
        let i = n - 1;
        assert(s[k + i] == s.skip(k)[i]);
        assert(starts_comment(s, k + i) == starts_comment(t, i)) by {
            if i + 1 < t.len() {
                assert(s[k + i + 1] == s.skip(k)[i + 1]);
            }
        }
        if i == 0 {
            assert(s[k] == '\n');
            assert(mode_at(t, 0) == Mode::Plain);
            assert(mode_at(s, k + 1) == Mode::Plain);
            assert(mode_at(t, 1) == Mode::Plain);
            assert(kept_at(s, k) && kept_at(t, 0));
            assert(!ends_at(s, k) && !ends_at(t, 0));
        } else {
            assert(ends_at(s, k + i) == ends_at(t, i));
            assert(kept_at(s, k + i) == kept_at(t, i));
        }
    }
}

/// The quotes are `'`, `"` and `` ` ``.
pub proof fn law_three_quotes(c: char)
    ensures
        is_quote(c) <==> c == '\'' || c == '"' || c == '`',
{
}

/// Where a quote stands outside quotes and comments, a quoted region starts, which the same quote
/// ends and no other; where two dashes stand there, a comment starts, which the end of the line
/// ends; and nothing else changes how a text is read.
pub proof fn law_quotes_and_comments_are_read_to_their_end(s: Seq<char>, i: int, q: char)
    requires
        0 <= i < s.len(),
    ensures
        mode_at(s, 0) == Mode::Plain,
        mode_at(s, i) is Plain && (s[i] == '\'' || s[i] == '"' || s[i] == '`') ==> mode_at(s, i + 1)
            == Mode::Quoted(s[i]),
        mode_at(s, i) == Mode::Quoted(q) && s[i] == q ==> mode_at(s, i + 1) is Plain,
        mode_at(s, i) == Mode::Quoted(q) && s[i] != q ==> mode_at(s, i + 1) == Mode::Quoted(q),
        mode_at(s, i) is Plain && s[i] == '-' && i + 1 < s.len() && s[i + 1] == '-' ==> mode_at(
            s,
            i + 1,
        ) is Comment,
        mode_at(s, i) is Comment && s[i] != '\n' ==> mode_at(s, i + 1) is Comment,
        mode_at(s, i) is Comment && s[i] == '\n' ==> mode_at(s, i + 1) is Plain,
        mode_at(s, i) is Plain && s[i] != '\'' && s[i] != '"' && s[i] != '`' && s[i] != '-'
            ==> mode_at(s, i + 1) is Plain,
        mode_at(s, i) is Plain && s[i] == '-' && (i + 1 == s.len() || s[i + 1] != '-') ==> mode_at(
            s,
            i + 1,
        ) is Plain,
{
}

/// A semicolon ends a statement outside quotes and comments, and nowhere else; all that is quoted
/// is kept, and of a comment its line end alone.
pub proof fn law_semicolons_end_statements(s: Seq<char>, i: int)
    requires
        0 <= i < s.len(),
    ensures
        ends_at(s, i) <==> s[i] == ';' && mode_at(s, i) is Plain,
        mode_at(s, i) is Quoted ==> kept_at(s, i),
        mode_at(s, i) is Comment ==> (kept_at(s, i) <==> s[i] == '\n'),
        mode_at(s, i) is Plain && s[i] != ';' && s[i] != '-' ==> kept_at(s, i),
        mode_at(s, i) is Plain && s[i] == ';' ==> !kept_at(s, i),
        mode_at(s, i) is Plain && s[i] == '-' ==> (kept_at(s, i) <==> !(i + 1 < s.len() && s[i + 1]
            == '-')),
{
}

/// The character plays no part in how a text is split.
pub open spec fn is_plain(c: char) -> bool {
    c != ';' && c != '\'' && c != '"' && c != '`' && c != '-'
}

/// A text without quotes, dashes and semicolons is one statement once a semicolon follows it, as it
/// stands but for the white space around it; without one it waits, as it stands.
pub proof fn law_plain_text_is_one_statement(s: Seq<char>)
    requires
        forall|i: int| 0 <= i < s.len() ==> is_plain(#[trigger] s[i]),
    ensures
        statements(s.push(';')) == seq![text::trim(s)],
        remainder(s.push(';')).len() == 0,
        statements(s).len() == 0,
        remainder(s) == text::trim(s),
{
    let n = s.len() as int;
    let t = s.push(';');
    lemma_plain(s, s, n);
    lemma_plain(t, s, n);
    assert(s.take(n) =~= s);
    assert(t.take(n) =~= s);
    assert(t[n] == ';');
    assert(ends_at(t, n));
    assert(complete(t, n + 1) =~= seq![text::trim(s)]);
    assert(last_end(t, n + 1) == n + 1);
    assert(kept(t, n + 1, n + 1) =~= Seq::<char>::empty());
}

proof fn lemma_plain(t: Seq<char>, s: Seq<char>, n: int)
    requires
        0 <= n <= s.len() <= t.len(),
        forall|i: int| 0 <= i < s.len() ==> is_plain(#[trigger] s[i]),
        forall|i: int| 0 <= i < s.len() ==> s[i] == #[trigger] t[i],
    ensures
        mode_at(t, n) is Plain,
        last_end(t, n) == 0,
        complete(t, n).len() == 0,
        kept(t, 0, n) == t.take(n),
    decreases n,
{
    if n > 0 {
        lemma_plain(t, s, n - 1);
        assert(is_plain(s[n - 1]));
        assert(s[n - 1] == t[n - 1]);
        assert(t.take(n) =~= t.take(n - 1).push(t[n - 1]));
    } else {
        assert(kept(t, 0, 0) =~= t.take(0));
    }
}

} // verus!
