//! Which texts the SQL parser takes.
//!
//! The parser panics on three forms. The first is `SET AUTHORIZATION`, or
//! `SET HIVEVAR:AUTHORIZATION`, with a name behind it: it goes on to ask for the scope that such a
//! statement must have. The second is `FLUSH RELAY LOGS FOR CHANNEL` with nothing behind it that
//! could be the channel's name. The third is `LIMIT ALL BY` in a subquery, whose text it makes: with
//! debug assertions it asks for a number before `BY`. Here all three are looked for in a text's
//! code, outside quotes and comments. All texts are in upper case, as the parser compares its
//! keywords.

use vstd::prelude::*;
use crate::statements;
use crate::statements::Mode;
use crate::text;

verus! {

pub open spec fn is_letter(c: char) -> bool {
    'A' <= c <= 'Z' || 'a' <= c <= 'z' || c == '_'
}

pub open spec fn is_digit(c: char) -> bool {
    '0' <= c <= '9'
}

/// The text with one more blank at its end, unless it ends in one.
pub open spec fn blanked(s: Seq<char>) -> Seq<char> {
    if s.len() > 0 && s.last() == ' ' {
        s
    } else {
        s.push(' ')
    }
}

/// The code in the first `n` characters: white space and comments are one blank, and of what is
/// quoted only quotes are left.
pub open spec fn code(s: Seq<char>, n: int) -> Seq<char>
    decreases n,
{
    if n <= 0 {
        Seq::empty()
    } else {
        let before = code(s, n - 1);
        let c = s[n - 1];
        match statements::mode_at(s, n - 1) {
            Mode::Quoted(_) => before.push('\''),
            Mode::Comment => blanked(before),
            Mode::Plain => if statements::is_quote(c) {
                before.push('\'')
            } else if text::is_space(c) || statements::starts_comment(s, n - 1) {
                blanked(before)
            } else {
                before.push(c)
            },
        }
    }
}

/// A form of quote or comment opens at `i` that ends otherwise than [`Mode`] says, or a character
/// stands there that may draw the next one into its word: `$`, `@`, `#`, a comment in slashes and
/// stars, and strings with a prefix.
pub open spec fn odd_at(s: Seq<char>, i: int) -> bool {
    &&& statements::mode_at(s, i) is Plain
    &&& {
        ||| s[i] == '$' || s[i] == '@' || s[i] == '#'
        ||| s[i] == '/' && i + 1 < s.len() && s[i + 1] == '*'
        ||| s[i] == '\'' && i > 0 && (s[i - 1] == 'E' || s[i - 1] == 'X' || s[i - 1] == 'R'
            || s[i - 1] == 'Q' || s[i - 1] == '&')
        ||| s[i] == '"' && i > 0 && s[i - 1] == 'R'
    }
}

/// The text holds such a form.
pub open spec fn odd(s: Seq<char>) -> bool {
    exists|i: int| 0 <= i < s.len() && #[trigger] odd_at(s, i)
}

/// A name opens behind the word that ends before `j`.
pub open spec fn name_opens(c: Seq<char>, j: int) -> bool {
    ||| j < c.len() && (c[j] == '\'' || c[j] as u32 >= 128)
    ||| j + 1 < c.len() && c[j] == ' ' && (is_letter(c[j + 1]) || c[j + 1] == '\'' || c[j + 1] as u32
        >= 128)
}

/// Where the letters that stand directly before `n` start.
pub open spec fn letters_from(c: Seq<char>, n: int) -> int
    decreases n,
{
    if n > 0 && is_letter(c[n - 1]) {
        letters_from(c, n - 1)
    } else {
        n
    }
}

/// The letters at `n` are the end of a longer word.
pub open spec fn inside_word(c: Seq<char>, n: int) -> bool {
    let k = letters_from(c, n);
    k < n && (k <= 0 || c[k - 1] == ' ' || c[k - 1] == '(' || c[k - 1] == ',')
}

/// What stands before `i` makes `AUTHORIZATION` there what is set.
pub open spec fn set_before(c: Seq<char>, i: int) -> bool {
    ||| "SET "@.is_suffix_of(c.take(i)) && !inside_word(c, i - 4)
    ||| "HIVEVAR:"@.is_suffix_of(c.take(i))
    ||| "HIVEVAR: "@.is_suffix_of(c.take(i))
    ||| "HIVEVAR :"@.is_suffix_of(c.take(i))
    ||| "HIVEVAR : "@.is_suffix_of(c.take(i))
}

/// A `SET AUTHORIZATION` with a name, and without a scope, ends at `i`.
pub open spec fn unscoped_at(c: Seq<char>, i: int) -> bool {
    &&& text::occurs_at(c, "AUTHORIZATION"@, i)
    &&& set_before(c, i)
    &&& name_opens(c, i + "AUTHORIZATION"@.len())
}

/// The text without the blanks and semicolons at its end.
pub open spec fn unended(s: Seq<char>) -> Seq<char>
    decreases s.len(),
{
    if s.len() > 0 && (s.last() == ' ' || s.last() == ';') {
        unended(s.drop_last())
    } else {
        s
    }
}

/// The text is a word, or quoted.
pub open spec fn is_name(s: Seq<char>) -> bool {
    &&& s.len() > 0
    &&& {
        ||| is_letter(s[0]) && forall|i: int|
            0 <= i < s.len() ==> is_letter(#[trigger] s[i]) || is_digit(s[i])
        ||| forall|i: int| 0 <= i < s.len() ==> #[trigger] s[i] == '\''
    }
}

/// What stands behind `CHANNEL` makes it a longer word, or is a name and nothing else.
pub open spec fn channel_named(rest: Seq<char>) -> bool {
    ||| rest.len() > 0 && (is_letter(rest[0]) || is_digit(rest[0]))
    ||| is_name(
        unended(
            if rest.len() > 0 && rest[0] == ' ' {
                rest.drop_first()
            } else {
                rest
            },
        ),
    )
}

/// A `RELAY LOGS FOR CHANNEL` without a name stands at `i`.
pub open spec fn unnamed_at(c: Seq<char>, i: int) -> bool {
    &&& text::occurs_at(c, "RELAY LOGS FOR CHANNEL"@, i)
    &&& !channel_named(c.skip(i + "RELAY LOGS FOR CHANNEL"@.len()))
}

/// The parser takes the text, which is in upper case. Where its quoting is odd, this asks that the
/// words of none of the forms be there.
pub open spec fn taken(upper: Seq<char>) -> bool {
    if odd(upper) {
        &&& !(text::contains(upper, "SET"@) && text::contains(upper, "AUTHORIZATION"@))
        &&& !(text::contains(upper, "RELAY"@) && text::contains(upper, "CHANNEL"@))
        &&& !(text::contains(upper, "LIMIT"@) && text::contains(upper, "ALL"@) && text::contains(
            upper,
            "BY"@,
        ))
    } else {
        let c = code(upper, upper.len() as int);
        &&& forall|i: int| !#[trigger] unscoped_at(c, i)
        &&& forall|i: int| !#[trigger] unnamed_at(c, i)
        &&& !text::contains(c, "LIMIT ALL BY"@)
    }
}

fn letter(c: char) -> (r: bool)
    ensures
        r == is_letter(c),
{
    ('A' <= c && c <= 'Z') || ('a' <= c && c <= 'z') || c == '_'
}

fn digit(c: char) -> (r: bool)
    ensures
        r == is_digit(c),
{
    '0' <= c && c <= '9'
}

fn push_blank(v: &mut Vec<char>)
    ensures
        final(v)@ == blanked(old(v)@),
{
    if v.len() == 0 || v[v.len() - 1] != ' ' {
        v.push(' ');
    }
}

/// The code of a text, and whether its quoting is odd.
fn read_code(v: &Vec<char>) -> (r: (Vec<char>, bool))
    ensures
        r.0@ == code(v@, v@.len() as int),
        r.1 == odd(v@),
{
    let ghost s = v@;
    let mut out: Vec<char> = Vec::new();
    let mut strange = false;
    let mut mode = Mode::Plain;
    let mut i: usize = 0;
    while i < v.len()
        invariant
            i <= v.len(),
            v@ == s,
            mode == statements::mode_at(s, i as int),
            out@ == code(s, i as int),
            strange == exists|k: int| 0 <= k < i && #[trigger] odd_at(s, k),
        decreases v.len() - i,
    {
        let c = v[i];
        let comment = c == '-' && i + 1 < v.len() && v[i + 1] == '-';
        assert(comment == statements::starts_comment(s, i as int));
        match mode {
            Mode::Comment => {
                push_blank(&mut out);
                if c == '\n' {
                    mode = Mode::Plain;
                }
            },
            Mode::Quoted(q) => {
                out.push('\'');
                if c == q {
                    mode = Mode::Plain;
                }
            },
            Mode::Plain => {
                let before = if i > 0 {
                    v[i - 1]
                } else {
                    ' '
                };
                let here = c == '$' || c == '@' || c == '#' || (c == '/' && i + 1 < v.len() && v[i
                    + 1] == '*') || (c == '\'' && (before == 'E' || before == 'X' || before == 'R'
                    || before == 'Q' || before == '&')) || (c == '"' && before == 'R');
                assert(here == odd_at(s, i as int));
                strange = strange || here;
                if c == '\'' || c == '"' || c == '`' {
                    out.push('\'');
                    mode = Mode::Quoted(c);
                } else if comment {
                    push_blank(&mut out);
                    mode = Mode::Comment;
                } else if text::whitespace(c) {
                    push_blank(&mut out);
                } else {
                    out.push(c);
                }
            },
        }
        i = i + 1;
    }
    (out, strange)
}

fn opens_name(c: &Vec<char>, j: usize) -> (r: bool)
    requires
        j <= c.len(),
    ensures
        r == name_opens(c@, j as int),
{
    if j == c.len() {
        return false;
    }
    if c[j] == '\'' || c[j] as u32 >= 128 {
        return true;
    }
    if c[j] != ' ' || c.len() - j == 1 {
        return false;
    }
    let next = c[j + 1];
    letter(next) || next == '\'' || next as u32 >= 128
}

fn ends_word(c: &Vec<char>, n: usize) -> (r: bool)
    requires
        n <= c.len(),
    ensures
        r == inside_word(c@, n as int),
{
    let mut k: usize = n;
    while k > 0 && letter(c[k - 1])
        invariant
            k <= n <= c.len(),
            letters_from(c@, n as int) == letters_from(c@, k as int),
        decreases k,
    {
        k = k - 1;
    }
    k < n && (k == 0 || c[k - 1] == ' ' || c[k - 1] == '(' || c[k - 1] == ',')
}

/// Whether `word` ends at `i`.
fn ends_at(c: &Vec<char>, word: &str, i: usize) -> (r: bool)
    requires
        i <= c.len(),
    ensures
        r == word@.is_suffix_of(c@.take(i as int)),
{
    let w = text::chars_of(word);
    if w.len() > i {
        return false;
    }
    let r = text::matches_at(c, &w, i - w.len());
    assert(c@.subrange(i - w@.len(), i as int) =~= c@.take(i as int).subrange(
        i - w@.len(),
        i as int,
    ));
    r
}

fn is_set(c: &Vec<char>, i: usize) -> (r: bool)
    requires
        i <= c.len(),
    ensures
        r == set_before(c@, i as int),
{
    proof {
        reveal_strlit("SET ");
    }
    (ends_at(c, "SET ", i) && !ends_word(c, i - 4)) || ends_at(c, "HIVEVAR:", i) || ends_at(
        c,
        "HIVEVAR: ",
        i,
    ) || ends_at(c, "HIVEVAR :", i) || ends_at(c, "HIVEVAR : ", i)
}

/// Whether no `SET AUTHORIZATION` with a name lacks its scope.
fn all_scoped(c: &Vec<char>) -> (r: bool)
    ensures
        r == forall|i: int| !#[trigger] unscoped_at(c@, i),
{
    let word = text::chars_of("AUTHORIZATION");
    let mut from: usize = 0;
    proof {
        reveal_strlit("AUTHORIZATION");
        assert(forall|i: int| i < 0 ==> !#[trigger] unscoped_at(c@, i));
    }
    loop
        invariant
            word@ == "AUTHORIZATION"@,
            word@.len() == 13,
            from <= c.len(),
            forall|i: int| i < from ==> !#[trigger] unscoped_at(c@, i),
        decreases c.len() - from,
    {
        match text::find_from(c, &word, from) {
            None => {
                assert forall|i: int| !#[trigger] unscoped_at(c@, i) by {
                    if i >= from {
                        assert(!text::occurs_at(c@, word@, i));
                    }
                }
                return true;
            },
            Some(i) => {
                assert(text::occurs_at(c@, word@, i as int));
                if is_set(c, i) && opens_name(c, i + 13) {
                    assert(unscoped_at(c@, i as int));
                    return false;
                }
                assert(!unscoped_at(c@, i as int));
                assert forall|k: int| k < i + 1 implies !#[trigger] unscoped_at(c@, k) by {
                    if from <= k < i {
                        assert(!text::occurs_at(c@, word@, k));
                    }
                }
                from = i + 1;
            },
        }
    }
}

fn named(c: &Vec<char>, start: usize) -> (r: bool)
    requires
        start <= c.len(),
    ensures
        r == channel_named(c@.skip(start as int)),
{
    let ghost rest = c@.skip(start as int);
    if start < c.len() {
        assert(rest[0] == c@[start as int]);
        if letter(c[start]) || digit(c[start]) {
            return true;
        }
    }
    let from: usize = if start < c.len() && c[start] == ' ' {
        start + 1
    } else {
        start
    };
    let ghost body = c@.skip(from as int);
    assert(body =~= if rest.len() > 0 && rest[0] == ' ' {
        rest.drop_first()
    } else {
        rest
    });
    let mut to: usize = c.len();
    assert(body.take(to - from) =~= body);
    while to > from && (c[to - 1] == ' ' || c[to - 1] == ';')
        invariant
            from <= to <= c.len(),
            body == c@.skip(from as int),
            unended(body) == unended(body.take(to - from)),
        decreases to,
    {
        assert(body.take(to - from).last() == c@[to - 1]);
        assert(body.take(to - from).drop_last() =~= body.take(to - 1 - from));
        to = to - 1;
    }
    let ghost name = body.take(to - from);
    assert(unended(body) == name) by {
        if to > from {
            assert(name.last() == c@[to - 1]);
        }
    }
    if to == from {
        return false;
    }
    assert(name[0] == c@[from as int]);
    let mut word = letter(c[from]);
    let mut quoted = true;
    let mut i: usize = from;
    while i < to
        invariant
            from <= i <= to <= c.len(),
            name == c@.skip(from as int).take(to - from),
            word == (is_letter(c@[from as int]) && forall|k: int|
                0 <= k < i - from ==> is_letter(#[trigger] name[k]) || is_digit(name[k])),
            quoted == forall|k: int| 0 <= k < i - from ==> #[trigger] name[k] == '\'',
        decreases to - i,
    {
        assert(name[i - from] == c@[i as int]);
        let fits = letter(c[i]) || digit(c[i]);
        word = word && fits;
        quoted = quoted && c[i] == '\'';
        i = i + 1;
    }
    word || quoted
}

/// Whether every `RELAY LOGS FOR CHANNEL` has its name.
fn all_named(c: &Vec<char>) -> (r: bool)
    ensures
        r == forall|i: int| !#[trigger] unnamed_at(c@, i),
{
    let words = text::chars_of("RELAY LOGS FOR CHANNEL");
    let mut from: usize = 0;
    proof {
        reveal_strlit("RELAY LOGS FOR CHANNEL");
        assert(forall|i: int| i < 0 ==> !#[trigger] unnamed_at(c@, i));
    }
    loop
        invariant
            words@ == "RELAY LOGS FOR CHANNEL"@,
            words@.len() == 22,
            from <= c.len(),
            forall|i: int| i < from ==> !#[trigger] unnamed_at(c@, i),
        decreases c.len() - from,
    {
        match text::find_from(c, &words, from) {
            None => {
                assert forall|i: int| !#[trigger] unnamed_at(c@, i) by {
                    if i >= from {
                        assert(!text::occurs_at(c@, words@, i));
                    }
                }
                return true;
            },
            Some(i) => {
                assert(text::occurs_at(c@, words@, i as int));
                if !named(c, i + 22) {
                    assert(unnamed_at(c@, i as int));
                    return false;
                }
                assert(!unnamed_at(c@, i as int));
                assert forall|k: int| k < i + 1 implies !#[trigger] unnamed_at(c@, k) by {
                    if from <= k < i {
                        assert(!text::occurs_at(c@, words@, k));
                    }
                }
                from = i + 1;
            },
        }
    }
}

/// Whether a `LIMIT ALL BY` is there.
fn limits_all_by(c: &Vec<char>) -> (r: bool)
    ensures
        r == text::contains(c@, "LIMIT ALL BY"@),
{
    let words = text::chars_of("LIMIT ALL BY");
    match text::find_from(c, &words, 0) {
        Some(i) => {
            assert(text::occurs_at(c@, "LIMIT ALL BY"@, i as int));
            true
        },
        None => false,
    }
}

/// Whether the parser takes a text, given in upper case.
pub fn parser_takes(upper: &str) -> (r: bool)
    ensures
        r == taken(upper@),
{
    let v = text::chars_of(upper);
    let (c, strange) = read_code(&v);
    if strange {
        !(text::contains_text(upper, "SET") && text::contains_text(upper, "AUTHORIZATION")) && !(
        text::contains_text(upper, "RELAY") && text::contains_text(upper, "CHANNEL")) && !(
        text::contains_text(upper, "LIMIT") && text::contains_text(upper, "ALL")
            && text::contains_text(upper, "BY"))
    } else {
        all_scoped(&c) && all_named(&c) && !limits_all_by(&c)
    }
}

/// A text whose code has none of the words `AUTHORIZATION`, `CHANNEL` and `LIMIT` is taken; where
/// its quoting is odd, one that has none of them anywhere.
pub proof fn law_other_statements_are_taken(upper: Seq<char>)
    requires
        !text::contains(code(upper, upper.len() as int), "AUTHORIZATION"@),
        !text::contains(code(upper, upper.len() as int), "CHANNEL"@),
        !text::contains(code(upper, upper.len() as int), "LIMIT"@),
        odd(upper) ==> !text::contains(upper, "AUTHORIZATION"@) && !text::contains(
            upper,
            "CHANNEL"@,
        ) && !text::contains(upper, "LIMIT"@),
    ensures
        taken(upper),
{
    let c = code(upper, upper.len() as int);
    assert forall|i: int| !#[trigger] unscoped_at(c, i) by {
        assert(!text::occurs_at(c, "AUTHORIZATION"@, i));
    }
    assert forall|i: int| !#[trigger] unnamed_at(c, i) by {
        let words = "RELAY LOGS FOR CHANNEL"@;
        if text::occurs_at(c, words, i) {
            reveal_strlit("RELAY LOGS FOR CHANNEL");
            reveal_strlit("CHANNEL");
            assert(c.subrange(i + 15, i + 22) =~= "CHANNEL"@) by {
                assert forall|k: int| 0 <= k < 7 implies c[i + 15 + k] == "CHANNEL"@[k] by {
                    assert(c.subrange(i, i + 22)[15 + k] == words[15 + k]);
                }
            }
            assert(text::occurs_at(c, "CHANNEL"@, i + 15));
        }
    }
    assert forall|i: int| !#[trigger] text::occurs_at(c, "LIMIT ALL BY"@, i) by {
        if text::occurs_at(c, "LIMIT ALL BY"@, i) {
            reveal_strlit("LIMIT ALL BY");
            reveal_strlit("LIMIT");
            assert(c.subrange(i, i + 5) =~= "LIMIT"@) by {
                assert forall|k: int| 0 <= k < 5 implies c[i + k] == "LIMIT"@[k] by {
                    assert(c.subrange(i, i + 12)[k] == "LIMIT ALL BY"@[k]);
                }
            }
            assert(text::occurs_at(c, "LIMIT"@, i));
        }
    }
}

/// In a text of usual quoting, a `LIMIT ALL BY` in its code keeps the parser from it, wherever it
/// stands.
pub proof fn law_limit_all_by_is_not_taken(upper: Seq<char>)
    requires
        !odd(upper),
        text::contains(code(upper, upper.len() as int), "LIMIT ALL BY"@),
    ensures
        !taken(upper),
{
}

/// In a text of usual quoting, a `SET AUTHORIZATION` with a name behind it keeps the parser from it,
/// wherever it stands.
pub proof fn law_unscoped_authorization_is_not_taken(upper: Seq<char>, a: Seq<char>, b: Seq<char>)
    requires
        !odd(upper),
        code(upper, upper.len() as int) == a + "SET AUTHORIZATION "@ + b,
        a.len() == 0 || a.last() == ' ',
        b.len() > 0,
        'A' <= b[0] <= 'Z' || b[0] == '_' || b[0] == '\'',
    ensures
        !taken(upper),
{
    reveal_strlit("SET AUTHORIZATION ");
    reveal_strlit("AUTHORIZATION");
    reveal_strlit("SET ");
    let c = code(upper, upper.len() as int);
    let n = a.len() as int;
    let i = n + 4;
    assert(c.subrange(i, i + 13) =~= "AUTHORIZATION"@);
    let front = c.take(i);
    assert(front.subrange(front.len() - 4, front.len() as int) =~= "SET "@);
    assert("SET "@.is_suffix_of(front));
    assert(letters_from(c, n) == n) by {
        if n > 0 {
            assert(c[n - 1] == a.last());
        }
    }
    assert(!inside_word(c, i - 4));
    assert(c[i + 13] == ' ');
    assert(c[i + 14] == b[0]);
    assert(unscoped_at(c, i));
}

/// In a text of usual quoting, a `RELAY LOGS FOR CHANNEL` with nothing behind it keeps the parser
/// from it, wherever it stands.
pub proof fn law_unnamed_channel_is_not_taken(upper: Seq<char>, a: Seq<char>)
    requires
        !odd(upper),
        code(upper, upper.len() as int) == a + "RELAY LOGS FOR CHANNEL"@,
    ensures
        !taken(upper),
{
    reveal_strlit("RELAY LOGS FOR CHANNEL");
    let c = code(upper, upper.len() as int);
    let i = a.len() as int;
    assert(c.subrange(i, i + 22) =~= "RELAY LOGS FOR CHANNEL"@);
    assert(c.skip(i + 22) =~= Seq::<char>::empty());
    assert(unnamed_at(c, i));
}

/// The code of a text is read character by character: what is quoted and what is commented out
/// leaves no word, and any other character is in it as it stands.
pub proof fn law_code_has_every_plain_character(s: Seq<char>, n: int)
    requires
        0 <= n < s.len(),
    ensures
        code(s, 0).len() == 0,
        statements::mode_at(s, n) is Quoted ==> code(s, n + 1) == code(s, n).push('\''),
        statements::mode_at(s, n) is Comment && code(s, n).len() > 0 && code(s, n).last() == ' '
            ==> code(s, n + 1) == code(s, n),
        statements::mode_at(s, n) is Plain && !text::is_space(s[n]) && s[n] != '-' && s[n] != '\''
            && s[n] != '"' && s[n] != '`' ==> code(s, n + 1) == code(s, n).push(s[n]),
        statements::mode_at(s, n) is Plain && text::is_space(s[n]) ==> code(s, n + 1).len() > 0
            && code(s, n + 1).last() == ' ' && code(s, n).is_prefix_of(code(s, n + 1)),
{
    let a = code(s, n);
    let b = code(s, n + 1);
    assert(a =~= b.subrange(0, a.len() as int) || a.len() > b.len());
}

} // verus!
