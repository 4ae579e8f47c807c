//! Table constraints: from the text of a definition to the record that is stored of it.

use vstd::prelude::*;
use crate::effects::{ConstraintRecord, Effect, EffectView, RecordView};
use crate::text;

verus! {

/// Opening less closing parentheses among the first `n` characters.
pub open spec fn depth(s: Seq<char>, n: int) -> int
    decreases n,
{
    if n <= 0 {
        0
    } else {
        depth(s, n - 1) + if s[n - 1] == '(' {
            1int
        } else if s[n - 1] == ')' {
            -1int
        } else {
            0int
        }
    }
}

/// The first position from `i` on where a closing parenthesis brings the depth to zero.
pub open spec fn closing(s: Seq<char>, i: int) -> Option<int>
    decreases s.len() - i,
{
    if i < 0 || i >= s.len() {
        None
    } else if s[i] == ')' && depth(s, i + 1) == 0 {
        Some(i)
    } else {
        closing(s, i + 1)
    }
}

/// The position of the parenthesis that closes the one that `s` starts with.
pub open spec fn matching_paren(s: Seq<char>) -> Option<int> {
    if s.len() > 0 && s[0] == '(' {
        closing(s, 0)
    } else {
        None
    }
}

/// The byte offset of the parenthesis that closes the one that `s` starts with.
///
/// Nested parentheses are counted. There is none where `s` does not start with `(`, or where
/// nothing closes it.
pub fn find_matching_paren(s: &str) -> (r: Option<usize>)
    ensures
        match r {
            Some(offset) => matching_paren(s@) is Some && offset == text::byte_len(
                s@.take(matching_paren(s@)->0),
            ),
            None => matching_paren(s@) is None,
        },
{
    match paren_position(s) {
        None => None,
        Some(k) => Some(text::byte_offset(s, k)),
    }
}

/// A closing position lies in the text, holds a closing parenthesis and is the first of its kind.
pub proof fn lemma_closing(s: Seq<char>, i: int)
    requires
        0 <= i,
    ensures
        match closing(s, i) {
            Some(k) => i <= k < s.len() && s[k] == ')' && depth(s, k + 1) == 0 && (forall|j: int|
                i <= j < k ==> !(#[trigger] s[j] == ')' && depth(s, j + 1) == 0)),
            None => forall|j: int|
                i <= j < s.len() ==> !(#[trigger] s[j] == ')' && depth(s, j + 1) == 0),
        },
    decreases s.len() - i,
{
    if i < s.len() && !(s[i] == ')' && depth(s, i + 1) == 0) {
        lemma_closing(s, i + 1);
    }
}

/// The position of the parenthesis that closes the one that `s` starts with.
pub fn paren_position(s: &str) -> (r: Option<usize>)
    ensures
        match r {
            Some(k) => k < s@.len() && matching_paren(s@) == Some(k as int),
            None => matching_paren(s@) is None,
        },
{
    let v = text::chars_of(s);
    if v.len() == 0 || v[0] != '(' {
        return None;
    }
    let mut open: i128 = 0;
    let mut i: usize = 0;
    while i < v.len()
        invariant
            i <= v.len(),
            v@ == s@,
            s@.len() > 0 && s@[0] == '(',
            open == depth(s@, i as int),
            -i <= open <= i,
            closing(s@, 0) == closing(s@, i as int),
        decreases v.len() - i,
    {
        if v[i] == '(' {
            open = open + 1;
        } else if v[i] == ')' {
            open = open - 1;
            if open == 0 {
                return Some(i);
            }
        }
        i = i + 1;
    }
    None
}

pub open spec fn record(
    kind: Seq<char>,
    columns: Seq<char>,
    ref_table: Option<Seq<char>>,
    ref_columns: Option<Seq<char>>,
) -> RecordView {
    RecordView { kind, columns, ref_table, ref_columns }
}

/// The columns of a key that is written `{keyword}{columns})`. They are taken from the folded
/// text.
pub open spec fn key_columns(upper: Seq<char>, keyword: Seq<char>) -> Option<Seq<char>> {
    let rest = upper.skip(keyword.len() as int);
    match text::rfind(rest, ')') {
        Some(end) => Some(rest.take(end)),
        None => None,
    }
}

/// What a referential action is stored as: `lead` and the action, where it is `CASCADE` or
/// `SET NULL`.
pub open spec fn stored_action(action: Seq<char>, lead: Seq<char>) -> Seq<char> {
    if "CASCADE"@.is_prefix_of(action) {
        lead + "CASCADE"@
    } else if "SET NULL"@.is_prefix_of(action) {
        lead + "SET NULL"@
    } else {
        Seq::empty()
    }
}

/// The `ON DELETE` and `ON UPDATE` parts of a foreign key's kind, from the folded text behind the
/// referenced columns. One word is skipped between the two.
pub open spec fn stored_actions(rest: Seq<char>) -> Seq<char> {
    let on_delete = "ON DELETE "@;
    let on_update = "ON UPDATE "@;
    let deletes = on_delete.is_prefix_of(rest);
    let after = rest.skip(on_delete.len() as int);
    let first = if deletes {
        stored_action(after, " ON DELETE "@)
    } else {
        Seq::empty()
    };
    let next = if deletes {
        text::trim(after.skip(text::word(after).len() as int))
    } else {
        rest
    };
    let second = if on_update.is_prefix_of(next) {
        stored_action(next.skip(on_update.len() as int), " ON UPDATE "@)
    } else {
        Seq::empty()
    };
    first + second
}

/// The referenced table where no columns follow it: the first word.
pub open spec fn lone_table(rest: Seq<char>) -> Seq<char> {
    let t = text::trim_start(rest);
    if t.len() == 0 {
        rest
    } else {
        text::word(t)
    }
}

/// What is stored of `FOREIGN KEY (columns) REFERENCES table(columns) [actions]`.
///
/// Names are taken from the definition as it stands, so that their letter case survives.
pub open spec fn foreign_key(definition: Seq<char>) -> Option<RecordView> {
    let rest = definition.skip("FOREIGN KEY ("@.len() as int);
    match text::find(rest, ')') {
        None => None,
        Some(end) => {
            let columns = rest.take(end);
            let after = text::trim_start(rest.skip(end + 1));
            if !"REFERENCES "@.is_prefix_of(after) {
                None
            } else {
                let target = after.skip("REFERENCES "@.len() as int);
                match text::find(target, '(') {
                    None => Some(
                        record(
                            "FOREIGN KEY"@,
                            columns,
                            Some(lone_table(target)),
                            Some(Seq::empty()),
                        ),
                    ),
                    Some(open) => {
                        let inner = target.skip(open + 1);
                        match text::rfind(inner, ')') {
                            None => None,
                            Some(close) => Some(
                                record(
                                    "FOREIGN KEY"@ + stored_actions(
                                        text::upper_text(text::trim(inner.skip(close + 1))),
                                    ),
                                    columns,
                                    Some(text::trim(target.take(open))),
                                    Some(inner.take(close)),
                                ),
                            ),
                        }
                    },
                }
            }
        },
    }
}

/// The expression of a check, from the text that its parenthesis opens: what stands between that
/// parenthesis and the one that closes it. A second pair around all of it is left out too; and
/// where nothing closes the first one, the second pair alone counts.
pub open spec fn check_expr(rest: Seq<char>) -> Option<Seq<char>> {
    let inner = rest.skip(1);
    let second = matching_paren(inner);
    match matching_paren(rest) {
        Some(end) => if second is Some && text::trim(inner.subrange(second->0 + 1, end - 1)).len()
            == 0 {
            Some(text::trim(inner.subrange(1, second->0)))
        } else {
            Some(text::trim(rest.subrange(1, end)))
        },
        None => match second {
            Some(end) => Some(text::trim(inner.subrange(1, end))),
            None => None,
        },
    }
}

/// What is stored of a check whose parenthesis stands at `at`: its expression, unless that is
/// blank.
pub open spec fn check(definition: Seq<char>, at: int) -> Option<RecordView> {
    match check_expr(definition.skip(at)) {
        Some(expr) => if expr.len() == 0 {
            None
        } else {
            Some(record("CHECK"@, expr, None, None))
        },
        None => None,
    }
}

/// What is stored of a table constraint. Keywords are recognised in either ASCII letter case.
pub open spec fn stored_constraint(definition: Seq<char>) -> Option<RecordView> {
    let upper = text::ascii_upper(definition);
    if "PRIMARY KEY ("@.is_prefix_of(upper) {
        match key_columns(upper, "PRIMARY KEY ("@) {
            Some(columns) => Some(record("PRIMARY KEY"@, columns, None, None)),
            None => None,
        }
    } else if "UNIQUE ("@.is_prefix_of(upper) {
        match key_columns(upper, "UNIQUE ("@) {
            Some(columns) => Some(record("UNIQUE"@, columns, None, None)),
            None => None,
        }
    } else if upper == "UNIQUE"@ {
        Some(record("UNIQUE"@, Seq::empty(), None, None))
    } else if "FOREIGN KEY ("@.is_prefix_of(upper) {
        foreign_key(definition)
    } else if "CHECK("@.is_prefix_of(upper) {
        check(definition, "CHECK"@.len() as int)
    } else if "CHECK ("@.is_prefix_of(upper) {
        check(definition, "CHECK "@.len() as int)
    } else {
        None
    }
}

/// The view of an optional record.
pub open spec fn record_view(r: Option<ConstraintRecord>) -> Option<RecordView> {
    match r {
        Some(c) => Some(c@),
        None => None,
    }
}

fn key_record(upper: &str, keyword: &str, kind: &str) -> (r: Option<ConstraintRecord>)
    requires
        keyword@.is_prefix_of(upper@),
    ensures
        record_view(r) == match key_columns(upper@, keyword@) {
            Some(columns) => Some(record(kind@, columns, None, None)),
            None => None,
        },
{
    let n: usize = keyword.unicode_len();
    let rest = text::tail(upper, n);
    match text::rfind_char(rest, ')') {
        Some(end) => Some(
            ConstraintRecord {
                kind: kind.to_owned(),
                columns: text::head(rest, end).to_owned(),
                ref_table: None,
                ref_columns: None,
            },
        ),
        None => None,
    }
}

fn action_text(action: &str, lead: &str) -> (r: String)
    ensures
        r@ == stored_action(action@, lead@),
{
    if text::starts_with(action, "CASCADE") {
        text::cat2(lead, "CASCADE")
    } else if text::starts_with(action, "SET NULL") {
        text::cat2(lead, "SET NULL")
    } else {
        String::new()
    }
}

/// `word` gives a prefix.
proof fn lemma_word_len(s: Seq<char>)
    ensures
        text::word(s).len() <= s.len(),
    decreases s.len(),
{
    if s.len() > 0 {
        lemma_word_len(s.drop_first());
    }
}

/// The stored form of the referential actions in a folded text.
pub fn actions_text(rest: &str) -> (r: String)
    ensures
        r@ == stored_actions(rest@),
{
    let mut first = String::new();
    let mut next = rest;
    if let Some(after) = text::strip_prefix(rest, "ON DELETE ") {
        first = action_text(after, " ON DELETE ");
        let n: usize = text::first_word(after).unicode_len();
        proof {
            lemma_word_len(after@);
        }
        next = text::trimmed(text::tail(after, n));
    }
    let second = match text::strip_prefix(next, "ON UPDATE ") {
        Some(after) => action_text(after, " ON UPDATE "),
        None => String::new(),
    };
    text::cat2(first.as_str(), second.as_str())
}

fn foreign_key_record(definition: &str) -> (r: Option<ConstraintRecord>)
    requires
        "FOREIGN KEY ("@.len() <= definition@.len(),
    ensures
        record_view(r) == foreign_key(definition@),
{
    let lead: usize = "FOREIGN KEY (".unicode_len();
    let rest = text::tail(definition, lead);
    let end: usize = match text::find_char(rest, ')') {
        Some(end) => end,
        None => {
            return None;
        },
    };
    let columns = text::head(rest, end).to_owned();
    let after = text::trimmed_start(text::tail(rest, end + 1));
    let target = match text::strip_prefix(after, "REFERENCES ") {
        Some(target) => target,
        None => {
            return None;
        },
    };
    let open: usize = match text::find_char(target, '(') {
        Some(open) => open,
        None => {
            let t = text::trimmed_start(target);
            let name = if t.unicode_len() == 0 {
                target.to_owned()
            } else {
                text::first_word(t).to_owned()
            };
            return Some(
                ConstraintRecord {
                    kind: "FOREIGN KEY".to_owned(),
                    columns,
                    ref_table: Some(name),
                    ref_columns: Some(String::new()),
                },
            );
        },
    };
    let ref_table = text::trimmed(text::head(target, open)).to_owned();
    let inner = text::tail(target, open + 1);
    match text::rfind_char(inner, ')') {
        None => None,
        Some(close) => {
            let behind = text::trimmed(text::tail(inner, close + 1));
            let upper = text::to_upper(behind);
            let actions = actions_text(upper.as_str());
            Some(
                ConstraintRecord {
                    kind: text::cat2("FOREIGN KEY", actions.as_str()),
                    columns,
                    ref_table: Some(ref_table),
                    ref_columns: Some(text::head(inner, close).to_owned()),
                },
            )
        },
    }
}

/// The second parenthesis, where it opens right behind the first, closes before the first does.
proof fn lemma_second_pair(rest: Seq<char>)
    requires
        rest.len() > 0,
        rest[0] == '(',
        matching_paren(rest) is Some,
        matching_paren(rest.skip(1)) is Some,
    ensures
        matching_paren(rest.skip(1))->0 + 1 < matching_paren(rest)->0,
{
    let inner = rest.skip(1);
    let end = matching_paren(rest)->0;
    let k = matching_paren(inner)->0;
    law_matching_paren_closes_the_first(rest);
    law_matching_paren_closes_the_first(inner);
    lemma_inner_depth(rest, end);
    if end <= k + 1 {
        // the depth behind `end` is zero outside, so it is negative inside
        assert(depth(inner, end) == depth(rest, end + 1) - 1);
        assert(depth(inner, end) > 0);
    }
}

/// Behind the first parenthesis the depth is one less.
proof fn lemma_inner_depth(rest: Seq<char>, n: int)
    requires
        rest.len() > 0,
        rest[0] == '(',
        0 <= n < rest.len(),
    ensures
        depth(rest.skip(1), n) == depth(rest, n + 1) - 1,
    decreases n,
{
    if n > 0 {
        lemma_inner_depth(rest, n - 1);
        assert(rest.skip(1)[n - 1] == rest[n]);
    } else {
        assert(depth(rest, 0) == 0);
    }
}

/// The expression of a check, from the text that its parenthesis opens.
fn check_text(rest: &str) -> (r: Option<String>)
    requires
        rest@.len() > 0,
        rest@[0] == '(',
    ensures
        match r {
            Some(expr) => check_expr(rest@) == Some(expr@),
            None => check_expr(rest@) is None,
        },
{
    let inner = text::tail(rest, 1);
    let second = paren_position(inner);
    let first = paren_position(rest);
    proof {
        law_matching_paren_closes_the_first(rest@);
        law_matching_paren_closes_the_first(inner@);
    }
    match (first, second) {
        (Some(end), Some(k)) => {
            proof {
                lemma_second_pair(rest@);
            }
            let behind = text::trimmed(inner.substring_char(k + 1, end - 1));
            if behind.unicode_len() == 0 {
                Some(text::trimmed(inner.substring_char(1, k)).to_owned())
            } else {
                Some(text::trimmed(rest.substring_char(1, end)).to_owned())
            }
        },
        (Some(end), None) => Some(text::trimmed(rest.substring_char(1, end)).to_owned()),
        (None, Some(k)) => Some(text::trimmed(inner.substring_char(1, k)).to_owned()),
        (None, None) => None,
    }
}

fn check_record(definition: &str, at: usize) -> (r: Option<ConstraintRecord>)
    requires
        at < definition@.len(),
        definition@[at as int] == '(',
    ensures
        record_view(r) == check(definition@, at as int),
{
    match check_text(text::tail(definition, at)) {
        None => None,
        Some(expr) => if expr.as_str().unicode_len() == 0 {
            None
        } else {
            Some(
                ConstraintRecord {
                    kind: "CHECK".to_owned(),
                    columns: expr,
                    ref_table: None,
                    ref_columns: None,
                },
            )
        },
    }
}

/// A parenthesis in the folded text is one in the text.
proof fn lemma_folded_paren(s: Seq<char>, keyword: Seq<char>, i: int)
    requires
        keyword.is_prefix_of(text::ascii_upper(s)),
        0 <= i < keyword.len(),
        keyword[i] == '(',
    ensures
        i < s.len(),
        s[i] == '(',
{
    assert(keyword =~= text::ascii_upper(s).take(keyword.len() as int));
    assert(text::ascii_upper(s).take(keyword.len() as int)[i] == text::ascii_upper_char(s[i]));
}

/// The record to store of a table constraint; none where the definition is not understood.
pub fn constraint_record(definition: &str) -> (r: Option<ConstraintRecord>)
    ensures
        record_view(r) == stored_constraint(definition@),
{
    let folded = text::to_ascii_upper(definition);
    let upper = folded.as_str();
    if text::starts_with(upper, "PRIMARY KEY (") {
        key_record(upper, "PRIMARY KEY (", "PRIMARY KEY")
    } else if text::starts_with(upper, "UNIQUE (") {
        key_record(upper, "UNIQUE (", "UNIQUE")
    } else if text::same_text(upper, "UNIQUE") {
        Some(
            ConstraintRecord {
                kind: "UNIQUE".to_owned(),
                columns: String::new(),
                ref_table: None,
                ref_columns: None,
            },
        )
    } else if text::starts_with(upper, "FOREIGN KEY (") {
        foreign_key_record(definition)
    } else if text::starts_with(upper, "CHECK(") {
        let n: usize = "CHECK".unicode_len();
        proof {
            reveal_strlit("CHECK(");
            reveal_strlit("CHECK");
            lemma_folded_paren(definition@, "CHECK("@, 5);
        }
        check_record(definition, n)
    } else if text::starts_with(upper, "CHECK (") {
        let n: usize = "CHECK ".unicode_len();
        proof {
            reveal_strlit("CHECK (");
            reveal_strlit("CHECK ");
            lemma_folded_paren(definition@, "CHECK ("@, 6);
        }
        check_record(definition, n)
    } else {
        None
    }
}

/// The effect that stores a table constraint; none where the definition is not understood.
pub fn save_table_constraint(db: &str, table: &str, definition: &str) -> (r: Option<Effect>)
    ensures
        match stored_constraint(definition@) {
            Some(record) => r is Some && r->0@ == (EffectView::InsertConstraint {
                db: db@,
                table: table@,
                record,
            }),
            None => r is None,
        },
{
    match constraint_record(definition) {
        Some(record) => Some(
            Effect::InsertConstraint { db: db.to_owned(), table: table.to_owned(), record },
        ),
        None => None,
    }
}

/// The matched parenthesis closes the first one: the depth is zero behind it, and not before.
/// There is none exactly where no parenthesis closes the first one.
pub proof fn law_matching_paren_closes_the_first(s: Seq<char>)
    ensures
        match matching_paren(s) {
            Some(k) => s[0] == '(' && 0 < k < s.len() && s[k] == ')' && depth(s, k + 1) == 0 && (
            forall|j: int| 0 < j <= k ==> #[trigger] depth(s, j) > 0),
            None => s.len() > 0 && s[0] == '(' ==> forall|j: int|
                0 < j <= s.len() ==> #[trigger] depth(s, j) > 0,
        },
{
    if s.len() > 0 && s[0] == '(' {
        lemma_closing(s, 0);
        let n = match matching_paren(s) {
            Some(k) => k,
            None => s.len() as int,
        };
        assert forall|j: int| 0 < j <= n implies #[trigger] depth(s, j) > 0 by {
            lemma_open(s, n, j);
        }
    }
}

proof fn lemma_open(s: Seq<char>, n: int, j: int)
    requires
        s.len() > 0,
        s[0] == '(',
        0 < j <= n <= s.len(),
        forall|i: int| 0 <= i < n ==> !(#[trigger] s[i] == ')' && depth(s, i + 1) == 0),
    ensures
        depth(s, j) > 0,
    decreases j,
{
    if j == 1 {
        assert(depth(s, 0) == 0);
    } else {
        lemma_open(s, n, j - 1);
        assert(!(s[j - 1] == ')' && depth(s, j) == 0));
    }
}

/// Every parenthesis in `s` has its partner.
pub open spec fn balanced(s: Seq<char>) -> bool {
    &&& depth(s, s.len() as int) == 0
    &&& forall|j: int| 0 <= j <= s.len() ==> #[trigger] depth(s, j) >= 0
}

/// The expression of a check is stored, whatever parentheses it holds.
pub proof fn law_check_expression_is_stored(expr: Seq<char>)
    requires
        balanced(expr),
        text::trim(expr).len() > 0,
        expr[0] != '(',
    ensures
        stored_constraint("CHECK ("@ + expr + ")"@) == Some(
            record("CHECK"@, text::trim(expr), None, None),
        ),
{
    reveal_strlit("CHECK (");
    reveal_strlit("CHECK ");
    reveal_strlit("CHECK(");
    reveal_strlit(")");
    reveal_strlit("PRIMARY KEY (");
    reveal_strlit("UNIQUE (");
    reveal_strlit("UNIQUE");
    reveal_strlit("FOREIGN KEY (");
    let d = "CHECK ("@ + expr + ")"@;
    let upper = text::ascii_upper(d);
    assert(d[0] == 'C' && d[1] == 'H' && d[2] == 'E' && d[3] == 'C' && d[4] == 'K' && d[5] == ' '
        && d[6] == '(');
    assert(upper[0] == 'C' && upper[5] == ' ');
    assert(!"PRIMARY KEY ("@.is_prefix_of(upper)) by {
        assert("PRIMARY KEY ("@[0] == 'P');
    }
    assert(!"UNIQUE ("@.is_prefix_of(upper)) by {
        assert("UNIQUE ("@[0] == 'U');
    }
    assert(upper != "UNIQUE"@) by {
        assert("UNIQUE"@[0] == 'U');
    }
    assert(!"FOREIGN KEY ("@.is_prefix_of(upper)) by {
        assert("FOREIGN KEY ("@[0] == 'F');
    }
    assert(!"CHECK("@.is_prefix_of(upper)) by {
        assert("CHECK("@[5] == '(');
    }
    assert("CHECK ("@.is_prefix_of(upper)) by {
        assert("CHECK ("@ =~= upper.take(7));
    }
    let rest = d.skip(6);
    let n = expr.len() as int;
    assert(rest =~= seq!['('] + expr + seq![')']);
    assert forall|j: int| 0 <= j <= n implies #[trigger] depth(rest, j + 1) == 1 + depth(expr, j) by {
        lemma_wrapped_depth(rest, expr, j);
    }
    assert(depth(rest, n + 1) == 1);
    assert(rest[n + 1] == ')');
    assert(depth(rest, n + 2) == 0);
    lemma_closing(rest, 0);
    assert forall|j: int| 0 <= j < n + 1 implies !(#[trigger] rest[j] == ')' && depth(rest, j + 1)
        == 0) by {
        assert(depth(rest, j + 1) == 1 + depth(expr, j));
    }
    assert(matching_paren(rest) == Some(n + 1));
    assert(rest.skip(1)[0] == expr[0]);
    assert(rest.subrange(1, n + 1) =~= expr);
}

proof fn lemma_wrapped_depth(rest: Seq<char>, expr: Seq<char>, j: int)
    requires
        rest == seq!['('] + expr + seq![')'],
        0 <= j <= expr.len(),
    ensures
        depth(rest, j + 1) == 1 + depth(expr, j),
    decreases j,
{
    if j > 0 {
        lemma_wrapped_depth(rest, expr, j - 1);
        assert(rest[j] == expr[j - 1]);
    } else {
        assert(depth(rest, 0) == 0);
        assert(rest[0] == '(');
    }
}

proof fn lemma_part(s: Seq<char>, a: int, b: int)
    requires
        0 <= a <= b <= s.len(),
    ensures
        text::contains(s, s.subrange(a, b)),
{
    assert(text::occurs_at(s, s.subrange(a, b), a));
}

proof fn lemma_contains_part(s: Seq<char>, t: Seq<char>, a: int, b: int)
    requires
        text::contains(s, t),
        0 <= a <= b <= t.len(),
    ensures
        text::contains(s, t.subrange(a, b)),
{
    let i = choose|i: int| text::occurs_at(s, t, i);
    assert(s.subrange(i + a, i + b) =~= s.subrange(i, i + t.len()).subrange(a, b));
    assert(t.subrange(a, b) =~= s.subrange(i + a, i + b));
    assert(text::occurs_at(s, t.subrange(a, b), i + a));
}

proof fn lemma_contains_trim_start(s: Seq<char>, t: Seq<char>)
    requires
        text::contains(s, t),
    ensures
        text::contains(s, text::trim_start(t)),
{
    text::lemma_trim_start(t);
    let k = choose|k: int|
        0 <= k <= t.len() && #[trigger] t.skip(k) == text::trim_start(t) && (forall|j: int|
            0 <= j < k ==> text::is_space(#[trigger] t[j])) && (k < t.len() ==> !text::is_space(
            t[k],
        ));
    assert(t.skip(k) =~= t.subrange(k, t.len() as int));
    lemma_contains_part(s, t, k, t.len() as int);
}

proof fn lemma_contains_trim(s: Seq<char>, t: Seq<char>)
    requires
        text::contains(s, t),
    ensures
        text::contains(s, text::trim(t)),
{
    lemma_contains_trim_start(s, t);
    let u = text::trim_start(t);
    text::lemma_trim_end(u);
    let k = choose|k: int|
        0 <= k <= u.len() && #[trigger] u.take(k) == text::trim_end(u) && (forall|j: int|
            k <= j < u.len() ==> text::is_space(#[trigger] u[j])) && (k > 0 ==> !text::is_space(
            u[k - 1],
        ));
    assert(u.take(k) =~= u.subrange(0, k));
    lemma_contains_part(s, u, 0, k);
}

proof fn lemma_word_is_prefix(s: Seq<char>)
    ensures
        text::word(s).is_prefix_of(s),
    decreases s.len(),
{
    if s.len() > 0 && !text::is_space(s[0]) {
        lemma_word_is_prefix(s.drop_first());
        let w = text::word(s.drop_first());
        assert(w =~= s.drop_first().take(w.len() as int));
        assert(text::word(s) =~= s.take(1 + w.len() as int));
    } else {
        assert(text::word(s) =~= s.take(0));
    }
}

/// The names in a foreign key keep their letter case: each is stored as it stands in the
/// definition.
pub proof fn law_foreign_key_names_are_verbatim(definition: Seq<char>)
    requires
        "FOREIGN KEY ("@.len() <= definition.len(),
        foreign_key(definition) is Some,
    ensures
        ({
            let r = foreign_key(definition)->0;
            &&& text::contains(definition, r.columns)
            &&& r.ref_table is Some && text::contains(definition, r.ref_table->0)
            &&& r.ref_columns is Some && text::contains(definition, r.ref_columns->0)
        }),
{
    let lead = "FOREIGN KEY ("@.len() as int;
    let rest = definition.skip(lead);
    text::lemma_find(rest, ')');
    let end = text::find(rest, ')')->0;
    assert(rest =~= definition.subrange(lead, definition.len() as int));
    lemma_part(definition, lead, definition.len() as int);
    assert(rest.take(end) =~= rest.subrange(0, end));
    lemma_contains_part(definition, rest, 0, end);
    assert(rest.skip(end + 1) =~= rest.subrange(end + 1, rest.len() as int));
    lemma_contains_part(definition, rest, end + 1, rest.len() as int);
    let after = text::trim_start(rest.skip(end + 1));
    lemma_contains_trim_start(definition, rest.skip(end + 1));
    let n = "REFERENCES "@.len() as int;
    let target = after.skip(n);
    assert(target =~= after.subrange(n, after.len() as int));
    lemma_contains_part(definition, after, n, after.len() as int);
    text::lemma_find(target, '(');
    match text::find(target, '(') {
        None => {
            let t = text::trim_start(target);
            lemma_contains_trim_start(definition, target);
            lemma_word_is_prefix(t);
            assert(text::word(t) =~= t.subrange(0, text::word(t).len() as int));
            lemma_contains_part(definition, t, 0, text::word(t).len() as int);
            assert(Seq::<char>::empty() =~= definition.subrange(0, 0));
            lemma_part(definition, 0, 0);
        },
        Some(open) => {
            assert(target.take(open) =~= target.subrange(0, open));
            lemma_contains_part(definition, target, 0, open);
            lemma_contains_trim(definition, target.take(open));
            let inner = target.skip(open + 1);
            assert(inner =~= target.subrange(open + 1, target.len() as int));
            lemma_contains_part(definition, target, open + 1, target.len() as int);
            text::lemma_rfind(inner, ')');
            let close = text::rfind(inner, ')')->0;
            assert(inner.take(close) =~= inner.subrange(0, close));
            lemma_contains_part(definition, inner, 0, close);
        },
    }
}

proof fn lemma_lead(lead: Seq<char>, body: Seq<char>, keyword: Seq<char>)
    requires
        text::ascii_upper(lead) == keyword,
    ensures
        keyword.is_prefix_of(text::ascii_upper(lead + body)),
        text::ascii_upper(lead + body) == keyword + text::ascii_upper(body),
        lead.len() == keyword.len(),
{
    let upper = text::ascii_upper(lead + body);
    assert(text::ascii_upper(lead).len() == lead.len());
    assert(upper =~= text::ascii_upper(lead) + text::ascii_upper(body));
    assert(upper.subrange(0, keyword.len() as int) =~= keyword);
}

/// Of a key over columns its kind is stored, and its columns, all of them and in their order, in
/// upper case; the keywords may be in whatever letter case.
pub proof fn law_keys_store_their_columns(lead: Seq<char>, columns: Seq<char>)
    ensures
        text::ascii_upper(lead) == "PRIMARY KEY ("@ ==> stored_constraint(lead + columns + ")"@)
            == Some(
            RecordView {
                kind: "PRIMARY KEY"@,
                columns: text::ascii_upper(columns),
                ref_table: None,
                ref_columns: None,
            },
        ),
        text::ascii_upper(lead) == "UNIQUE ("@ ==> stored_constraint(lead + columns + ")"@) == Some(
            RecordView {
                kind: "UNIQUE"@,
                columns: text::ascii_upper(columns),
                ref_table: None,
                ref_columns: None,
            },
        ),
        text::ascii_upper(lead) == "UNIQUE"@ ==> stored_constraint(lead) == Some(
            RecordView {
                kind: "UNIQUE"@,
                columns: Seq::empty(),
                ref_table: None,
                ref_columns: None,
            },
        ),
{
    reveal_strlit("PRIMARY KEY (");
    reveal_strlit("UNIQUE (");
    reveal_strlit("UNIQUE");
    reveal_strlit(")");
    let body = columns + ")"@;
    let d = lead + columns + ")"@;
    assert(d =~= lead + body);
    let folded = text::ascii_upper(body);
    assert(folded =~= text::ascii_upper(columns) + ")"@);
    assert(folded.last() == ')');
    assert(text::rfind(folded, ')') == Some(folded.len() - 1));
    assert(folded.take(folded.len() - 1) =~= text::ascii_upper(columns));
    if text::ascii_upper(lead) == "PRIMARY KEY ("@ {
        lemma_lead(lead, body, "PRIMARY KEY ("@);
        assert(text::ascii_upper(d).skip("PRIMARY KEY ("@.len() as int) =~= folded);
    }
    if text::ascii_upper(lead) == "UNIQUE ("@ {
        lemma_lead(lead, body, "UNIQUE ("@);
        let upper = text::ascii_upper(d);
        assert(!"PRIMARY KEY ("@.is_prefix_of(upper)) by {
            assert(upper[0] == 'U');
            assert("PRIMARY KEY ("@[0] == 'P');
        }
        assert(upper.skip("UNIQUE ("@.len() as int) =~= folded);
    }
    if text::ascii_upper(lead) == "UNIQUE"@ {
        let upper = text::ascii_upper(lead);
        assert(upper.len() == 6);
        assert(!"PRIMARY KEY ("@.is_prefix_of(upper));
        assert(!"UNIQUE ("@.is_prefix_of(upper));
    }
}

/// Of a foreign key its columns, the table and the columns that it refers to are stored, all of
/// them as they are written, and its kind tells what becomes of its rows; the keywords
/// `FOREIGN KEY` may be in whatever letter case.
pub proof fn law_foreign_keys_store_what_they_refer_to(
    lead: Seq<char>,
    columns: Seq<char>,
    table: Seq<char>,
    ref_columns: Seq<char>,
    actions: Seq<char>,
)
    requires
        text::ascii_upper(lead) == "FOREIGN KEY ("@,
        !columns.contains(')'),
        !table.contains('('),
        !actions.contains(')'),
    ensures
        ({
            let d = lead + columns + ") REFERENCES "@ + table + "("@ + ref_columns + ")"@ + actions;
            stored_constraint(d) == Some(
                RecordView {
                    kind: "FOREIGN KEY"@ + stored_actions(text::upper_text(text::trim(actions))),
                    columns,
                    ref_table: Some(text::trim(table)),
                    ref_columns: Some(ref_columns),
                },
            )
        }),
{
    let target = table + "("@ + ref_columns + ")"@ + actions;
    let body = columns + ") REFERENCES "@ + target;
    let d = lead + columns + ") REFERENCES "@ + table + "("@ + ref_columns + ")"@ + actions;
    assert(d =~= lead + body);
    lemma_lead(lead, body, "FOREIGN KEY ("@);
    lemma_foreign_lead(text::ascii_upper(d));
    assert(d.skip("FOREIGN KEY ("@.len() as int) =~= body);
    lemma_behind_columns(columns, target);
    lemma_target(table, ref_columns, actions);
}

proof fn lemma_foreign_lead(upper: Seq<char>)
    requires
        "FOREIGN KEY ("@.is_prefix_of(upper),
    ensures
        !"PRIMARY KEY ("@.is_prefix_of(upper),
        !"UNIQUE ("@.is_prefix_of(upper),
        upper != "UNIQUE"@,
{
    reveal_strlit("PRIMARY KEY (");
    reveal_strlit("UNIQUE (");
    reveal_strlit("UNIQUE");
    reveal_strlit("FOREIGN KEY (");
    assert(upper[0] == "FOREIGN KEY ("@[0]);
    if "PRIMARY KEY ("@.is_prefix_of(upper) {
        assert(upper[0] == "PRIMARY KEY ("@[0]);
    }
    if "UNIQUE ("@.is_prefix_of(upper) {
        assert(upper[0] == "UNIQUE ("@[0]);
    }
}

proof fn lemma_behind_columns(columns: Seq<char>, target: Seq<char>)
    requires
        !columns.contains(')'),
    ensures
        ({
            let rest = columns + ") REFERENCES "@ + target;
            let after = text::trim_start(rest.skip(columns.len() as int + 1));
            &&& text::find(rest, ')') == Some(columns.len() as int)
            &&& rest.take(columns.len() as int) == columns
            &&& "REFERENCES "@.is_prefix_of(after)
            &&& after.skip("REFERENCES "@.len() as int) == target
        }),
{
    reveal_strlit(") REFERENCES ");
    reveal_strlit("REFERENCES ");
    let rest = columns + ") REFERENCES "@ + target;
    let end = columns.len() as int;
    assert forall|j: int| 0 <= j < end implies rest[j] != ')' by {
        assert(rest[j] == columns[j]);
    }
    lemma_find_at(rest, ')', end);
    assert(rest.take(end) =~= columns);
    let tail = rest.skip(end + 1);
    let after = "REFERENCES "@ + target;
    assert(tail[0] == ' ');
    assert(tail.drop_first() =~= after);
    assert(after[0] == 'R');
    assert(text::trim_start(after) == after);
    assert(text::trim_start(tail) == after);
    assert(after.subrange(0, 11) =~= "REFERENCES "@);
    assert(after.skip(11) =~= target);
}

proof fn lemma_target(table: Seq<char>, ref_columns: Seq<char>, actions: Seq<char>)
    requires
        !table.contains('('),
        !actions.contains(')'),
    ensures
        ({
            let target = table + "("@ + ref_columns + ")"@ + actions;
            let inner = target.skip(table.len() as int + 1);
            let close = ref_columns.len() as int;
            &&& text::find(target, '(') == Some(table.len() as int)
            &&& target.take(table.len() as int) == table
            &&& text::rfind(inner, ')') == Some(close)
            &&& inner.take(close) == ref_columns
            &&& inner.skip(close + 1) == actions
        }),
{
    reveal_strlit("(");
    reveal_strlit(")");
    let target = table + "("@ + ref_columns + ")"@ + actions;
    let open = table.len() as int;
    assert forall|j: int| 0 <= j < open implies target[j] != '(' by {
        assert(target[j] == table[j]);
    }
    lemma_find_at(target, '(', open);
    assert(target.take(open) =~= table);
    let inner = target.skip(open + 1);
    assert(inner =~= ref_columns + ")"@ + actions);
    let close = ref_columns.len() as int;
    assert forall|j: int| close < j < inner.len() implies inner[j] != ')' by {
        assert(inner[j] == actions[j - close - 1]);
    }
    lemma_rfind_at(inner, ')', close);
    assert(inner.take(close) =~= ref_columns);
    assert(inner.skip(close + 1) =~= actions);
}

proof fn lemma_find_at(s: Seq<char>, c: char, i: int)
    requires
        0 <= i < s.len(),
        s[i] == c,
        forall|j: int| 0 <= j < i ==> s[j] != c,
    ensures
        text::find(s, c) == Some(i),
{
    text::lemma_find(s, c);
    assert(s.contains(c));
}

proof fn lemma_rfind_at(s: Seq<char>, c: char, i: int)
    requires
        0 <= i < s.len(),
        s[i] == c,
        forall|j: int| i < j < s.len() ==> s[j] != c,
    ensures
        text::rfind(s, c) == Some(i),
{
    text::lemma_rfind(s, c);
    assert(s.contains(c));
}

/// What a foreign key does on a deletion or an update is part of its kind where it cascades or sets
/// `NULL`; any other action, and none, leave no mark.
pub proof fn law_actions_are_part_of_the_kind(x: Seq<char>)
    ensures
        stored_actions("ON UPDATE CASCADE"@ + x) == " ON UPDATE CASCADE"@,
        stored_actions("ON UPDATE SET NULL"@ + x) == " ON UPDATE SET NULL"@,
        " ON DELETE CASCADE"@.is_prefix_of(stored_actions("ON DELETE CASCADE"@ + x)),
        " ON DELETE SET NULL"@.is_prefix_of(stored_actions("ON DELETE SET NULL"@ + x)),
        !"ON DELETE "@.is_prefix_of(x) && !"ON UPDATE "@.is_prefix_of(x) ==> stored_actions(x).len()
            == 0,
        "ON UPDATE "@.is_prefix_of(x) && !"CASCADE"@.is_prefix_of(x.skip(10))
            && !"SET NULL"@.is_prefix_of(x.skip(10)) ==> stored_actions(x).len() == 0,
        stored_actions("ON DELETE CASCADE"@) == " ON DELETE CASCADE"@,
{
    reveal_strlit("ON UPDATE CASCADE");
    reveal_strlit("ON UPDATE SET NULL");
    reveal_strlit("ON DELETE CASCADE");
    reveal_strlit("ON DELETE SET NULL");
    reveal_strlit(" ON UPDATE CASCADE");
    reveal_strlit(" ON UPDATE SET NULL");
    reveal_strlit(" ON DELETE CASCADE");
    reveal_strlit(" ON DELETE SET NULL");
    reveal_strlit(" ON UPDATE ");
    reveal_strlit(" ON DELETE ");
    reveal_strlit("ON UPDATE ");
    reveal_strlit("ON DELETE ");
    reveal_strlit("CASCADE");
    reveal_strlit("SET NULL");
    assert(" ON UPDATE "@ + "CASCADE"@ =~= " ON UPDATE CASCADE"@);
    assert(" ON UPDATE "@ + "SET NULL"@ =~= " ON UPDATE SET NULL"@);
    assert(" ON DELETE "@ + "CASCADE"@ =~= " ON DELETE CASCADE"@);
    assert(" ON DELETE "@ + "SET NULL"@ =~= " ON DELETE SET NULL"@);
    let uc = "ON UPDATE CASCADE"@ + x;
    assert(uc =~= "ON UPDATE "@ + ("CASCADE"@ + x));
    lemma_update_action(uc, "CASCADE"@ + x);
    assert(("CASCADE"@ + x).subrange(0, 7) =~= "CASCADE"@);
    let un = "ON UPDATE SET NULL"@ + x;
    assert(un =~= "ON UPDATE "@ + ("SET NULL"@ + x));
    lemma_update_action(un, "SET NULL"@ + x);
    assert(("SET NULL"@ + x).subrange(0, 8) =~= "SET NULL"@);
    assert(!"CASCADE"@.is_prefix_of("SET NULL"@ + x)) by {
        assert(("SET NULL"@ + x)[0] == 'S');
        assert("CASCADE"@[0] == 'C');
    }
    let dc = "ON DELETE CASCADE"@ + x;
    assert(dc.subrange(0, 10) =~= "ON DELETE "@);
    assert(dc.skip(10) =~= "CASCADE"@ + x);
    assert(stored_action(dc.skip(10), " ON DELETE "@) == " ON DELETE CASCADE"@);
    let dn = "ON DELETE SET NULL"@ + x;
    assert(dn.subrange(0, 10) =~= "ON DELETE "@);
    assert(dn.skip(10) =~= "SET NULL"@ + x);
    assert(stored_action(dn.skip(10), " ON DELETE "@) == " ON DELETE SET NULL"@);
    lemma_first_part(dc, " ON DELETE CASCADE"@);
    lemma_first_part(dn, " ON DELETE SET NULL"@);
    if "ON UPDATE "@.is_prefix_of(x) {
        assert(!"ON DELETE "@.is_prefix_of(x)) by {
            assert(x[3] == "ON UPDATE "@[3]);
            assert("ON DELETE "@[3] == 'D');
        }
    }
    let only = "ON DELETE CASCADE"@;
    assert(only.subrange(0, 10) =~= "ON DELETE "@);
    assert(only.skip(10) =~= "CASCADE"@);
    lemma_word_whole("CASCADE"@);
    assert("CASCADE"@.skip(7) =~= Seq::<char>::empty());
    assert(text::trim(Seq::<char>::empty()) =~= Seq::<char>::empty());
    assert(" ON DELETE CASCADE"@ + Seq::<char>::empty() =~= " ON DELETE CASCADE"@);
}

proof fn lemma_update_action(rest: Seq<char>, action: Seq<char>)
    requires
        rest == "ON UPDATE "@ + action,
    ensures
        stored_actions(rest) == stored_action(action, " ON UPDATE "@),
{
    reveal_strlit("ON UPDATE ");
    reveal_strlit("ON DELETE ");
    assert(rest.subrange(0, 10) =~= "ON UPDATE "@);
    assert("ON UPDATE "@.is_prefix_of(rest));
    assert(!"ON DELETE "@.is_prefix_of(rest)) by {
        assert(rest[3] == 'U');
        assert("ON DELETE "@[3] == 'D');
    }
    assert(rest.skip(10) =~= action);
    assert(Seq::<char>::empty() + stored_action(action, " ON UPDATE "@) =~= stored_action(
        action,
        " ON UPDATE "@,
    ));
}

proof fn lemma_first_part(rest: Seq<char>, first: Seq<char>)
    requires
        "ON DELETE "@.is_prefix_of(rest),
        stored_action(rest.skip("ON DELETE "@.len() as int), " ON DELETE "@) == first,
    ensures
        first.is_prefix_of(stored_actions(rest)),
{
    let all = stored_actions(rest);
    assert(all.subrange(0, first.len() as int) =~= first);
}

proof fn lemma_word_whole(s: Seq<char>)
    requires
        forall|i: int| 0 <= i < s.len() ==> !text::is_space(#[trigger] s[i]),
    ensures
        text::word(s) == s,
    decreases s.len(),
{
    if s.len() > 0 {
        let t = s.drop_first();
        assert forall|i: int| 0 <= i < t.len() implies !text::is_space(#[trigger] t[i]) by {
            assert(t[i] == s[i + 1]);
        }
        lemma_word_whole(t);
        assert(seq![s[0]] + t =~= s);
    }
}

/// A definition that starts like no constraint is not stored.
pub proof fn law_other_definitions_are_not_stored(definition: Seq<char>)
    requires
        ({
            let upper = text::ascii_upper(definition);
            &&& !"PRIMARY KEY ("@.is_prefix_of(upper)
            &&& !"UNIQUE"@.is_prefix_of(upper)
            &&& !"FOREIGN KEY ("@.is_prefix_of(upper)
            &&& !"CHECK"@.is_prefix_of(upper)
        }),
    ensures
        stored_constraint(definition) is None,
{
    reveal_strlit("UNIQUE");
    reveal_strlit("UNIQUE (");
    reveal_strlit("CHECK");
    reveal_strlit("CHECK(");
    reveal_strlit("CHECK (");
    let upper = text::ascii_upper(definition);
    assert("UNIQUE"@.subrange(0, 6) =~= "UNIQUE"@);
    if "UNIQUE ("@.is_prefix_of(upper) {
        assert(upper.subrange(0, 6) =~= upper.subrange(0, 8).subrange(0, 6));
        assert("UNIQUE ("@.subrange(0, 6) =~= "UNIQUE"@);
    }
    if "CHECK("@.is_prefix_of(upper) {
        assert(upper.subrange(0, 5) =~= upper.subrange(0, 6).subrange(0, 5));
        assert("CHECK("@.subrange(0, 5) =~= "CHECK"@);
    }
    if "CHECK ("@.is_prefix_of(upper) {
        assert(upper.subrange(0, 5) =~= upper.subrange(0, 7).subrange(0, 5));
        assert("CHECK ("@.subrange(0, 5) =~= "CHECK"@);
    }
}

proof fn lemma_checked(d: Seq<char>, at: int, expr: Seq<char>)
    requires
        0 <= at <= d.len(),
        d.skip(at) == seq!['('] + expr + seq![')'],
        balanced(expr),
        expr.len() == 0 || expr[0] != '(',
    ensures
        check_expr(d.skip(at)) == Some(text::trim(expr)),
{
    let rest = d.skip(at);
    let n = expr.len() as int;
    assert forall|j: int| 0 <= j <= n implies #[trigger] depth(rest, j + 1) == 1 + depth(expr, j) by {
        lemma_wrapped_depth(rest, expr, j);
    }
    assert(depth(rest, n + 1) == 1);
    assert(rest[n + 1] == ')');
    assert(depth(rest, n + 2) == 0);
    lemma_closing(rest, 0);
    assert forall|j: int| 0 <= j < n + 1 implies !(#[trigger] rest[j] == ')' && depth(rest, j + 1)
        == 0) by {
        assert(depth(rest, j + 1) == 1 + depth(expr, j));
    }
    assert(matching_paren(rest) == Some(n + 1));
    assert(rest.skip(1)[0] == if n == 0 {
        ')'
    } else {
        expr[0]
    });
    assert(rest.subrange(1, n + 1) =~= expr);
}

/// A check is stored under its expression, whether or not a space stands before its parenthesis
/// and in whatever letter case its keyword is; one whose expression is blank is not stored.
pub proof fn law_checks_store_their_expression(lead: Seq<char>, expr: Seq<char>)
    requires
        text::ascii_upper(lead) == "CHECK("@ || text::ascii_upper(lead) == "CHECK ("@,
        balanced(expr),
        expr.len() == 0 || expr[0] != '(',
    ensures
        text::trim(expr).len() > 0 ==> stored_constraint(lead + expr + ")"@) == Some(
            RecordView {
                kind: "CHECK"@,
                columns: text::trim(expr),
                ref_table: None,
                ref_columns: None,
            },
        ),
        text::trim(expr).len() == 0 ==> stored_constraint(lead + expr + ")"@) is None,
{
    reveal_strlit("CHECK (");
    reveal_strlit("CHECK(");
    reveal_strlit("CHECK ");
    reveal_strlit("CHECK");
    reveal_strlit(")");
    let body = expr + ")"@;
    let d = lead + expr + ")"@;
    let keyword = text::ascii_upper(lead);
    assert(d =~= lead + body);
    lemma_lead(lead, body, keyword);
    lemma_check_lead(text::ascii_upper(d));
    let at = keyword.len() - 1;
    assert(text::ascii_upper(lead)[at] == '(');
    assert(text::ascii_upper_char(lead[at]) == '(');
    assert(lead[at] == '(');
    assert(d.skip(at) =~= seq!['('] + expr + seq![')']);
    lemma_checked(d, at, expr);
    if keyword == "CHECK ("@ {
        let upper = text::ascii_upper(d);
        assert(upper[5] == keyword[5]);
        if "CHECK("@.is_prefix_of(upper) {
            assert(upper[5] == "CHECK("@[5]);
        }
    }
}

proof fn lemma_check_lead(upper: Seq<char>)
    requires
        "CHECK("@.is_prefix_of(upper) || "CHECK ("@.is_prefix_of(upper),
    ensures
        !"PRIMARY KEY ("@.is_prefix_of(upper),
        !"UNIQUE ("@.is_prefix_of(upper),
        upper != "UNIQUE"@,
        !"FOREIGN KEY ("@.is_prefix_of(upper),
{
    reveal_strlit("CHECK (");
    reveal_strlit("CHECK(");
    reveal_strlit("PRIMARY KEY (");
    reveal_strlit("UNIQUE (");
    reveal_strlit("UNIQUE");
    reveal_strlit("FOREIGN KEY (");
    if "CHECK("@.is_prefix_of(upper) {
        assert(upper[0] == "CHECK("@[0]);
    } else {
        assert(upper[0] == "CHECK ("@[0]);
    }
    if "PRIMARY KEY ("@.is_prefix_of(upper) {
        assert(upper[0] == "PRIMARY KEY ("@[0]);
    }
    if "UNIQUE ("@.is_prefix_of(upper) {
        assert(upper[0] == "UNIQUE ("@[0]);
    }
    if "FOREIGN KEY ("@.is_prefix_of(upper) {
        assert(upper[0] == "FOREIGN KEY ("@[0]);
    }
}

/// A foreign key may name its table alone: the table is stored as it is written, without columns.
pub proof fn law_foreign_key_may_name_the_table_alone(
    lead: Seq<char>,
    columns: Seq<char>,
    table: Seq<char>,
)
    requires
        text::ascii_upper(lead) == "FOREIGN KEY ("@,
        !columns.contains(')'),
        !table.contains('('),
        table.len() > 0,
        forall|i: int| 0 <= i < table.len() ==> !text::is_space(#[trigger] table[i]),
    ensures
        stored_constraint(lead + columns + ") REFERENCES "@ + table) == Some(
            RecordView {
                kind: "FOREIGN KEY"@,
                columns,
                ref_table: Some(table),
                ref_columns: Some(Seq::empty()),
            },
        ),
{
    let body = columns + ") REFERENCES "@ + table;
    let d = lead + columns + ") REFERENCES "@ + table;
    assert(d =~= lead + body);
    lemma_lead(lead, body, "FOREIGN KEY ("@);
    lemma_foreign_lead(text::ascii_upper(d));
    assert(d.skip("FOREIGN KEY ("@.len() as int) =~= body);
    lemma_behind_columns(columns, table);
    text::lemma_find(table, '(');
    assert(text::find(table, '(') is None);
    assert(!text::is_space(table[0]));
    lemma_word_whole(table);
}

/// A foreign key may say what it does on a deletion and on an update; both are stored.
pub proof fn law_both_actions_are_stored(second: Seq<char>)
    requires
        "ON UPDATE "@.is_prefix_of(second),
        second.len() > 0,
        !text::is_space(second.last()),
    ensures
        stored_actions("ON DELETE CASCADE "@ + second) == " ON DELETE CASCADE"@ + stored_actions(
            second,
        ),
{
    let after = "CASCADE"@ + (seq![' '] + second);
    let all = "ON DELETE CASCADE "@ + second;
    lemma_starts_update(second);
    lemma_behind_cascade(second);
    assert(all =~= "ON DELETE "@ + after) by {
        reveal_strlit("ON DELETE CASCADE ");
        reveal_strlit("ON DELETE ");
        reveal_strlit("CASCADE");
    }
    assert(all.subrange(0, "ON DELETE "@.len() as int) =~= "ON DELETE "@);
    assert(all.skip("ON DELETE "@.len() as int) =~= after);
    assert(" ON DELETE "@ + "CASCADE"@ =~= " ON DELETE CASCADE"@) by {
        reveal_strlit(" ON DELETE ");
        reveal_strlit("CASCADE");
        reveal_strlit(" ON DELETE CASCADE");
    }
    let update = stored_action(second.skip("ON UPDATE "@.len() as int), " ON UPDATE "@);
    assert(Seq::<char>::empty() + update =~= update);
}

proof fn lemma_starts_update(second: Seq<char>)
    requires
        "ON UPDATE "@.is_prefix_of(second),
    ensures
        !"ON DELETE "@.is_prefix_of(second),
        second.len() > 0,
        second[0] == 'O',
{
    reveal_strlit("ON UPDATE ");
    reveal_strlit("ON DELETE ");
    assert(second[0] == "ON UPDATE "@[0]);
    assert(second[3] == "ON UPDATE "@[3]);
    if "ON DELETE "@.is_prefix_of(second) {
        assert(second[3] == "ON DELETE "@[3]);
    }
}

proof fn lemma_behind_cascade(second: Seq<char>)
    requires
        second.len() > 0,
        second[0] == 'O',
        !text::is_space(second.last()),
    ensures
        ({
            let after = "CASCADE"@ + (seq![' '] + second);
            &&& "CASCADE"@.is_prefix_of(after)
            &&& text::word(after) == "CASCADE"@
            &&& text::trim(after.skip("CASCADE"@.len() as int)) == second
        }),
{
    let tail = seq![' '] + second;
    let after = "CASCADE"@ + tail;
    assert(after.subrange(0, "CASCADE"@.len() as int) =~= "CASCADE"@);
    assert forall|i: int| 0 <= i < "CASCADE"@.len() implies !text::is_space(
        #[trigger] "CASCADE"@[i],
    ) by {
        reveal_strlit("CASCADE");
    }
    lemma_word_stops("CASCADE"@, tail);
    assert(after.skip("CASCADE"@.len() as int) =~= tail);
    assert(tail.drop_first() =~= second);
    assert(text::trim_start(second) == second);
    assert(text::trim_start(tail) == second);
    assert(text::trim_end(second) == second);
}

proof fn lemma_word_stops(w: Seq<char>, rest: Seq<char>)
    requires
        forall|i: int| 0 <= i < w.len() ==> !text::is_space(#[trigger] w[i]),
        rest.len() > 0 ==> text::is_space(rest[0]),
    ensures
        text::word(w + rest) == w,
    decreases w.len(),
{
    let s = w + rest;
    if w.len() > 0 {
        let t = w.drop_first();
        assert forall|i: int| 0 <= i < t.len() implies !text::is_space(#[trigger] t[i]) by {
            assert(t[i] == w[i + 1]);
        }
        lemma_word_stops(t, rest);
        assert(s[0] == w[0]);
        assert(s.drop_first() =~= t + rest);
        assert(seq![w[0]] + t =~= w);
    } else {
        assert(s =~= rest);
        assert(w =~= Seq::<char>::empty());
    }
}

proof fn lemma_same_depth(s: Seq<char>, t: Seq<char>, j: int)
    requires
        0 <= j <= s.len(),
        j <= t.len(),
        forall|k: int| 0 <= k < j ==> s[k] == t[k],
    ensures
        depth(s, j) == depth(t, j),
    decreases j,
{
    if j > 0 {
        lemma_same_depth(s, t, j - 1);
    }
}

proof fn lemma_closes_at(s: Seq<char>, expr: Seq<char>)
    requires
        s.len() >= expr.len() + 2,
        s.take(expr.len() as int + 2) == seq!['('] + expr + seq![')'],
        balanced(expr),
    ensures
        matching_paren(s) == Some(expr.len() as int + 1),
{
    let n = expr.len() as int;
    let w = seq!['('] + expr + seq![')'];
    assert forall|k: int| 0 <= k < n + 2 implies s[k] == w[k] by {
        assert(s.take(n + 2)[k] == s[k]);
    }
    assert forall|j: int| 0 <= j <= n implies #[trigger] depth(s, j + 1) == 1 + depth(expr, j) by {
        lemma_wrapped_depth(w, expr, j);
        lemma_same_depth(s, w, j + 1);
    }
    assert(depth(s, n + 1) == 1);
    assert(s[n + 1] == ')');
    assert(depth(s, n + 2) == 0);
    assert(s[0] == '(');
    lemma_closing(s, 0);
    assert forall|j: int| 0 <= j < n + 1 implies !(#[trigger] s[j] == ')' && depth(s, j + 1) == 0) by {
        assert(depth(s, j + 1) == 1 + depth(expr, j));
    }
}

proof fn lemma_balanced_wrap(expr: Seq<char>)
    requires
        balanced(expr),
    ensures
        balanced(seq!['('] + expr + seq![')']),
{
    let w = seq!['('] + expr + seq![')'];
    let n = expr.len() as int;
    assert forall|j: int| 0 <= j <= n implies #[trigger] depth(w, j + 1) == 1 + depth(expr, j) by {
        lemma_wrapped_depth(w, expr, j);
    }
    assert(depth(w, n + 1) == 1);
    assert(w[n + 1] == ')');
    assert(depth(w, n + 2) == 0);
    assert(depth(w, 0) == 0);
    assert forall|j: int| 0 <= j <= w.len() implies #[trigger] depth(w, j) >= 0 by {
        if 0 < j <= n + 1 {
            assert(depth(w, (j - 1) + 1) == 1 + depth(expr, j - 1));
        }
    }
}

/// A second pair of parentheses around all of a check is not stored.
pub proof fn law_second_pair_is_left_out(lead: Seq<char>, expr: Seq<char>)
    requires
        text::ascii_upper(lead) == "CHECK("@ || text::ascii_upper(lead) == "CHECK ("@,
        balanced(expr),
        text::trim(expr).len() > 0,
    ensures
        stored_constraint(lead + (seq!['('] + expr + seq![')']) + ")"@) == Some(
            RecordView {
                kind: "CHECK"@,
                columns: text::trim(expr),
                ref_table: None,
                ref_columns: None,
            },
        ),
{
    let mid = seq!['('] + expr + seq![')'];
    let body = mid + ")"@;
    let d = lead + mid + ")"@;
    let keyword = text::ascii_upper(lead);
    assert(d =~= lead + body);
    lemma_lead(lead, body, keyword);
    lemma_check_lead(text::ascii_upper(d));
    let at = keyword.len() - 1;
    lemma_check_place(lead);
    assert(lead[at] == '(');
    let rest = d.skip(at);
    let n = expr.len() as int;
    assert(rest =~= seq!['('] + mid + seq![')']) by {
        reveal_strlit(")");
    }
    lemma_balanced_wrap(expr);
    assert(rest.take(mid.len() as int + 2) =~= seq!['('] + mid + seq![')']);
    lemma_closes_at(rest, mid);
    let inner = rest.skip(1);
    assert(inner.take(n + 2) =~= mid);
    lemma_closes_at(inner, expr);
    assert(inner.subrange(n + 2, n + 2) =~= Seq::<char>::empty());
    assert(text::trim(Seq::<char>::empty()) =~= Seq::<char>::empty());
    assert(inner.subrange(1, n + 1) =~= expr);
    assert(check_expr(rest) == Some(text::trim(expr)));
    if keyword == "CHECK ("@ {
        let upper = text::ascii_upper(d);
        lemma_spaced_check(upper);
    }
}

proof fn lemma_check_place(lead: Seq<char>)
    requires
        text::ascii_upper(lead) == "CHECK("@ || text::ascii_upper(lead) == "CHECK ("@,
    ensures
        lead.len() == text::ascii_upper(lead).len(),
        lead.len() > 0,
        lead.last() == '(',
        text::ascii_upper(lead) == "CHECK("@ ==> lead.len() - 1 == "CHECK"@.len(),
        text::ascii_upper(lead) == "CHECK ("@ ==> lead.len() - 1 == "CHECK "@.len(),
{
    reveal_strlit("CHECK (");
    reveal_strlit("CHECK(");
    reveal_strlit("CHECK ");
    reveal_strlit("CHECK");
    let at = lead.len() - 1;
    assert(text::ascii_upper(lead).len() == lead.len());
    assert(text::ascii_upper(lead)[at] == '(');
    assert(text::ascii_upper_char(lead[at]) == '(');
}

proof fn lemma_spaced_check(upper: Seq<char>)
    requires
        "CHECK ("@.is_prefix_of(upper),
    ensures
        !"CHECK("@.is_prefix_of(upper),
{
    reveal_strlit("CHECK (");
    reveal_strlit("CHECK(");
    assert(upper[5] == "CHECK ("@[5]);
    if "CHECK("@.is_prefix_of(upper) {
        assert(upper[5] == "CHECK("@[5]);
    }
}

/// Where nothing closes the first parenthesis of a check, what stands in the second pair is stored.
pub proof fn law_unclosed_pair_is_left_out(lead: Seq<char>, expr: Seq<char>)
    requires
        text::ascii_upper(lead) == "CHECK("@ || text::ascii_upper(lead) == "CHECK ("@,
        balanced(expr),
        text::trim(expr).len() > 0,
    ensures
        stored_constraint(lead + (seq!['('] + expr + seq![')'])) == Some(
            RecordView {
                kind: "CHECK"@,
                columns: text::trim(expr),
                ref_table: None,
                ref_columns: None,
            },
        ),
{
    let mid = seq!['('] + expr + seq![')'];
    let d = lead + mid;
    let keyword = text::ascii_upper(lead);
    lemma_lead(lead, mid, keyword);
    lemma_check_lead(text::ascii_upper(d));
    let at = keyword.len() - 1;
    lemma_check_place(lead);
    let rest = d.skip(at);
    let n = expr.len() as int;
    assert(rest =~= seq!['('] + mid);
    lemma_balanced_wrap(expr);
    let w = seq!['('] + mid + seq![')'];
    lemma_closing(rest, 0);
    assert forall|j: int| 0 <= j < rest.len() implies #[trigger] depth(rest, j + 1) > 0 by {
        lemma_wrapped_depth(w, mid, j);
        lemma_same_depth(rest, w, j + 1);
        assert(depth(mid, j) >= 0);
    }
    assert(matching_paren(rest) is None);
    let inner = rest.skip(1);
    assert(inner.take(n + 2) =~= mid);
    lemma_closes_at(inner, expr);
    assert(inner.subrange(1, n + 1) =~= expr);
    assert(check_expr(rest) == Some(text::trim(expr)));
    if keyword == "CHECK ("@ {
        lemma_spaced_check(text::ascii_upper(d));
    }
}

} // verus!
