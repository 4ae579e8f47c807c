//! The interactive loop: prompts, input, and what to do with it.

use vstd::prelude::*;
use crate::statements;
use crate::statements::{final_mode, split_complete_statements, Mode};
use crate::text;
use crate::vetting;
use crate::vetting::parser_takes;

verus! {

/// What a line of input leads to.
#[derive(Debug, PartialEq)]
pub enum ShellStep {
    /// Nothing yet: read the next line.
    Wait,
    /// Print this line and leave.
    Exit(String),
    /// Carry these statements out, in order.
    Run(Vec<String>),
}

pub ghost enum StepView {
    Wait,
    Exit(Seq<char>),
    Run(Seq<Seq<char>>),
}

impl View for ShellStep {
    type V = StepView;

    open spec fn view(&self) -> StepView {
        match *self {
            ShellStep::Wait => StepView::Wait,
            ShellStep::Exit(line) => StepView::Exit(line@),
            ShellStep::Run(list) => StepView::Run(text::views(list@)),
        }
    }
}

/// The pending input with one more line. A blank parts them, unless white space does.
pub open spec fn accumulated(pending: Seq<char>, line: Seq<char>) -> Seq<char> {
    if pending.len() > 0 && !text::is_space(pending.last()) {
        pending + " "@ + line
    } else {
        pending + line
    }
}

/// The input is a blank line, and nothing is pending.
pub open spec fn is_blank(input: Seq<char>, line: Seq<char>) -> bool {
    &&& "\n"@.is_suffix_of(input)
    &&& text::trim(line).len() == 0
    &&& text::trim(input).len() == 0
}

/// The line is `exit` or `quit`, and nothing else.
pub open spec fn is_farewell(line: Seq<char>) -> bool {
    text::same_fold(text::trim(line), "exit"@) || text::same_fold(text::trim(line), "quit"@)
}

/// The line leaves the shell: it is a farewell, and does not stand inside a quoted region that the
/// pending input has opened.
pub open spec fn leaves(pending: Seq<char>, line: Seq<char>) -> bool {
    is_farewell(line) && !(statements::mode_at(pending, pending.len() as int) is Quoted)
}

/// What a line leads to.
pub open spec fn step(pending: Seq<char>, line: Seq<char>) -> StepView {
    let input = accumulated(pending, line);
    if is_blank(input, line) {
        StepView::Wait
    } else if leaves(pending, line) {
        StepView::Exit("Exiting RookDB..!"@)
    } else {
        StepView::Run(statements::statements(input))
    }
}

/// What is pending after a line.
pub open spec fn pending_after(pending: Seq<char>, line: Seq<char>) -> Seq<char> {
    let input = accumulated(pending, line);
    if is_blank(input, line) || leaves(pending, line) {
        input
    } else {
        statements::remainder(input)
    }
}

/// Takes a line of input in.
pub fn feed(pending: &mut String, line: &str) -> (r: ShellStep)
    ensures
        r@ == step(old(pending)@, line@),
        final(pending)@ == pending_after(old(pending)@, line@),
{
    let v = text::chars_of(pending.as_str());
    let input = if v.len() > 0 && !text::whitespace(v[v.len() - 1]) {
        text::cat3(pending.as_str(), " ", line)
    } else {
        text::cat2(pending.as_str(), line)
    };
    let typed = text::trimmed(line);
    if text::ends_with(input.as_str(), "\n") && typed.unicode_len() == 0 && text::trimmed(
        input.as_str(),
    ).unicode_len() == 0 {
        *pending = input;
        return ShellStep::Wait;
    }
    let quoted = match final_mode(pending.as_str()) {
        Mode::Quoted(_) => true,
        _ => false,
    };
    if (text::same_ignoring_case(typed, "exit") || text::same_ignoring_case(typed, "quit"))
        && !quoted {
        *pending = input;
        return ShellStep::Exit("Exiting RookDB..!".to_owned());
    }
    let (complete, rest) = split_complete_statements(input.as_str());
    *pending = rest;
    ShellStep::Run(complete)
}

/// At the end of the input: the statement that is still pending, if any.
pub fn finish(pending: &str) -> (r: Option<String>)
    ensures
        match r {
            Some(statement) => text::trim(pending@).len() > 0 && statement@ == text::trim(pending@),
            None => text::trim(pending@).len() == 0,
        },
{
    let rest = text::trimmed(pending);
    if rest.unicode_len() > 0 {
        Some(rest.to_owned())
    } else {
        None
    }
}

/// Input without a terminator runs nothing: a statement waits until its terminator is read.
pub proof fn law_incomplete_input_waits(input: Seq<char>)
    requires
        forall|i: int| 0 <= i < input.len() ==> !statements::ends_at(input, i),
    ensures
        statements::statements(input).len() == 0,
{
    lemma_no_end(input, input.len() as int);
}

proof fn lemma_no_end(input: Seq<char>, n: int)
    requires
        forall|i: int| 0 <= i < input.len() ==> !statements::ends_at(input, i),
        0 <= n <= input.len(),
    ensures
        statements::complete(input, n).len() == 0,
    decreases n,
{
    if n > 0 {
        lemma_no_end(input, n - 1);
        assert(!statements::ends_at(input, n - 1));
    }
}

/// The prompt to show.
pub fn prompt(current_db: &Option<String>, pending: &str) -> (r: String)
    ensures
        r@ == if pending@.len() > 0 {
            "... "@
        } else {
            match *current_db {
                Some(db) => "rookdb ("@ + db@ + ")> "@,
                None => "rookdb> "@,
            }
        },
{
    if pending.unicode_len() > 0 {
        "... ".to_owned()
    } else {
        match current_db {
            Some(db) => text::cat3("rookdb (", db.as_str(), ")> "),
            None => "rookdb> ".to_owned(),
        }
    }
}

/// Whether statements are echoed: by an argument, or by the environment variable's value.
pub fn echo_enabled(args: &Vec<String>, variable: &Option<String>) -> (r: bool)
    ensures
        r <==> (exists|i: int|
            0 <= i < args@.len() && (#[trigger] args@[i]@ == "--echo"@ || args@[i]@ == "-e"@)) || (
        variable is Some && variable->0@ != "0"@),
{
    let mut i: usize = 0;
    while i < args.len()
        invariant
            i <= args.len(),
            forall|j: int| 0 <= j < i ==> #[trigger] args@[j]@ != "--echo"@ && args@[j]@ != "-e"@,
        decreases args.len() - i,
    {
        let a = args[i].as_str();
        if text::same_text(a, "--echo") || text::same_text(a, "-e") {
            assert(args@[i as int]@ == "--echo"@ || args@[i as int]@ == "-e"@);
            return true;
        }
        i = i + 1;
    }
    match variable {
        Some(v) => !text::same_text(v.as_str(), "0"),
        None => false,
    }
}

/// `n` times the character `═`.
pub open spec fn bar(n: nat) -> Seq<char> {
    Seq::new(n, |i: int| '═')
}

/// The lines of a text: what stands before, between and behind its line ends.
pub open spec fn lines(s: Seq<char>) -> Seq<Seq<char>>
    decreases s.len(),
{
    let end = text::find(s, '\n');
    if end is Some && 0 <= end->0 < s.len() {
        seq![s.take(end->0)] + lines(s.skip(end->0 + 1))
    } else {
        seq![s]
    }
}

/// The banner's body: every line that is not blank.
pub open spec fn banner_body(rows: Seq<Seq<char>>) -> Seq<Seq<char>>
    decreases rows.len(),
{
    if rows.len() == 0 {
        Seq::empty()
    } else {
        let before = banner_body(rows.drop_last());
        let row = text::trim(rows.last());
        if row.len() == 0 {
            before
        } else {
            before.push("\x1b[1;36m║\x1b[0m  \x1b[1;37m"@ + row + "\x1b[0m"@)
        }
    }
}

/// The lines that echo a statement: one for `USE`, a box for any other.
pub open spec fn banner(sql: Seq<char>, upper: Seq<char>) -> Seq<Seq<char>> {
    let statement = text::trim(sql);
    if statement.len() == 0 {
        Seq::empty()
    } else if "USE "@.is_prefix_of(upper) {
        seq!["\n\x1b[1;36m▶\x1b[0m \x1b[1;37m"@ + statement + "\x1b[0m"@]
    } else {
        seq!["\n\x1b[1;36m╔══ \x1b[1;97;44m SQL ❯ \x1b[0;1;36m"@ + bar(69) + "\x1b[0m"@]
            + banner_body(lines(statement)) + seq!["\x1b[1;36m╚"@ + bar(78) + "\x1b[0m"@]
    }
}

fn bar_text(n: usize) -> (r: String)
    ensures
        r@ == bar(n as nat),
{
    let mut r = String::new();
    let mut i: usize = 0;
    while i < n
        invariant
            i <= n,
            r@ == bar(i as nat),
        decreases n - i,
    {
        r.push('═');
        assert(r@ =~= bar((i + 1) as nat));
        i = i + 1;
    }
    r
}

/// The lines of a text.
fn line_list(s: &str) -> (r: Vec<String>)
    ensures
        text::views(r@) == lines(s@),
    decreases s@.len(),
{
    proof {
        text::lemma_find(s@, '\n');
    }
    let mut out: Vec<String> = Vec::new();
    match text::find_char(s, '\n') {
        None => {
            out.push(s.to_owned());
            assert(text::views(out@) =~= seq![s@]);
        },
        Some(i) => {
            out.push(text::head(s, i).to_owned());
            let ghost first = text::views(out@);
            assert(first =~= seq![s@.take(i as int)]);
            let mut more = line_list(text::tail(s, i + 1));
            let ghost rest = text::views(more@);
            out.append(&mut more);
            assert(text::views(out@) =~= first + rest);
        },
    }
    out
}

/// The lines that echo a statement, given its trimmed text in upper case.
pub fn banner_lines(sql: &str, upper: &str) -> (r: Vec<String>)
    ensures
        text::views(r@) == banner(sql@, upper@),
{
    let statement = text::trimmed(sql);
    let mut out: Vec<String> = Vec::new();
    if statement.unicode_len() == 0 {
        assert(text::views(out@) =~= Seq::<Seq<char>>::empty());
        return out;
    }
    if text::starts_with(upper, "USE ") {
        out.push(text::cat3("\n\x1b[1;36m▶\x1b[0m \x1b[1;37m", statement, "\x1b[0m"));
        assert(text::views(out@) =~= banner(sql@, upper@));
        return out;
    }
    let top = bar_text(69);
    let bottom = bar_text(78);
    out.push(
        text::cat3(
            "\n\x1b[1;36m╔══ \x1b[1;97;44m SQL ❯ \x1b[0;1;36m",
            top.as_str(),
            "\x1b[0m",
        ),
    );
    let ghost head = text::views(out@);
    assert(head =~= seq![
        "\n\x1b[1;36m╔══ \x1b[1;97;44m SQL ❯ \x1b[0;1;36m"@ + bar(69) + "\x1b[0m"@,
    ]);
    let rows = line_list(statement);
    let ghost all = text::views(rows@);
    let mut i: usize = 0;
    assert(text::views(out@) =~= head + banner_body(all.take(0)));
    while i < rows.len()
        invariant
            i <= rows.len(),
            all == text::views(rows@),
            text::views(out@) == head + banner_body(all.take(i as int)),
        decreases rows.len() - i,
    {
        let ghost done = text::views(out@);
        assert(all.take(i + 1).drop_last() =~= all.take(i as int));
        assert(all.take(i + 1).last() == rows@[i as int]@);
        let row = text::trimmed(rows[i].as_str());
        if row.unicode_len() > 0 {
            let line = text::cat3("\x1b[1;36m║\x1b[0m  \x1b[1;37m", row, "\x1b[0m");
            let ghost l = line@;
            out.push(line);
            assert(text::views(out@) =~= done.push(l));
        }
        assert(text::views(out@) =~= head + banner_body(all.take(i + 1)));
        i = i + 1;
    }
    assert(all.take(i as int) =~= all);
    let ghost done = text::views(out@);
    let line = text::cat3("\x1b[1;36m╚", bottom.as_str(), "\x1b[0m");
    let ghost last = line@;
    out.push(line);
    assert(text::views(out@) =~= done.push(last));
    assert(done.push(last) =~= head + banner_body(lines(statement@)) + seq![last]);
    out
}

/// The lines that echo a statement.
pub fn sql_banner(sql: &str) -> (r: Vec<String>)
    ensures
        text::views(r@) == banner(sql@, text::upper_text(text::trim(sql@))),
{
    let upper = text::to_upper(text::trimmed(sql));
    banner_lines(sql, upper.as_str())
}

/// What `rook_parser::parse_sql` makes of a statement: the parsed statement as JSON text, or what
/// is wrong with it.
pub uninterp spec fn parsed_sql(sql: Seq<char>) -> Result<Seq<char>, Seq<char>>;

/// Parses a statement: `rook_parser::parse_sql`. The result depends on the text alone. The parser
/// below it panics on three forms of text, so the text must be one that it takes.
#[verifier::external_body]
pub(crate) fn parse(sql: &str) -> (r: Result<String, String>)
    requires
        vetting::taken(text::upper_text(sql@)),
    ensures
        match r {
            Ok(json) => parsed_sql(sql@) == Ok::<Seq<char>, Seq<char>>(json@),
            Err(e) => parsed_sql(sql@) == Err::<Seq<char>, Seq<char>>(e@),
        },
{
    rook_parser::parse_sql(sql)
}

/// What a statement's text turns out to be.
#[derive(Debug, PartialEq)]
pub enum Reading {
    /// Nothing to carry out: blank, or a comment.
    Nothing,
    /// Not a statement: print this line.
    Refused(String),
    /// A statement, parsed.
    Parsed(String),
    /// A statement of a form that the parser does not take.
    Withheld,
}

/// What a statement's text turns out to be, given what the parser makes of its trimmed form.
pub open spec fn reading(r: Reading, sql: Seq<char>, parsed: Result<Seq<char>, Seq<char>>) -> bool {
    let statement = text::trim(sql);
    if statement.len() == 0 || "--"@.is_prefix_of(statement) {
        r is Nothing
    } else {
        match parsed {
            Ok(json) => r matches Reading::Parsed(j) && j@ == json,
            Err(e) => r matches Reading::Refused(line) && line@ == "Parse error: "@ + e,
        }
    }
}

/// Whether a trimmed statement is worth parsing.
fn is_statement(statement: &str) -> (r: bool)
    ensures
        r == !(statement@.len() == 0 || "--"@.is_prefix_of(statement@)),
{
    statement.unicode_len() > 0 && !text::starts_with(statement, "--")
}

/// What a statement's text turns out to be, given what the parser makes of its trimmed form.
pub fn read_parsed(sql: &str, parsed: Result<String, String>) -> (r: Reading)
    ensures
        reading(
            r,
            sql@,
            match parsed {
                Ok(json) => Ok::<Seq<char>, Seq<char>>(json@),
                Err(e) => Err(e@),
            },
        ),
{
    if !is_statement(text::trimmed(sql)) {
        return Reading::Nothing;
    }
    match parsed {
        Ok(json) => Reading::Parsed(json),
        Err(e) => Reading::Refused(text::cat2("Parse error: ", e.as_str())),
    }
}

/// The text is neither blank nor a comment, and of a form that the parser does not take.
pub open spec fn is_withheld(sql: Seq<char>) -> bool {
    let statement = text::trim(sql);
    &&& statement.len() > 0
    &&& !"--"@.is_prefix_of(statement)
    &&& !vetting::taken(text::upper_text(statement))
}

/// Reads a statement.
pub fn execute(sql: &str) -> (r: Reading)
    ensures
        r is Withheld <==> is_withheld(sql@),
        !is_withheld(sql@) ==> reading(r, sql@, parsed_sql(text::trim(sql@))),
{
    let statement = text::trimmed(sql);
    if !is_statement(statement) {
        return Reading::Nothing;
    }
    let upper = text::to_upper(statement);
    if !parser_takes(upper.as_str()) {
        return Reading::Withheld;
    }
    read_parsed(sql, parse(statement))
}

/// `exit` and `quit`, alone on a line, leave the shell, whatever statement is pending, but for one
/// that has a quote open: there the line is part of what is quoted. Nothing else leaves the shell.
pub proof fn law_farewell_leaves(pending: Seq<char>, line: Seq<char>)
    ensures
        step(pending, line) is Exit <==> leaves(pending, line),
{
    if is_farewell(line) {
        reveal_strlit("exit");
        reveal_strlit("quit");
        let typed = text::trim(line);
        assert(text::ascii_lower(typed).len() == typed.len());
        assert(text::ascii_lower("exit"@).len() == 4);
        assert(text::ascii_lower("quit"@).len() == 4);
    }
}

/// A line is added behind what is pending, and both stay as they are; at most one blank parts them.
pub proof fn law_input_is_kept(pending: Seq<char>, line: Seq<char>)
    ensures
        pending.is_prefix_of(accumulated(pending, line)),
        line.is_suffix_of(accumulated(pending, line)),
        accumulated(pending, line).len() == pending.len() + line.len() + (if pending.len() > 0
            && !text::is_space(pending.last()) {
            1int
        } else {
            0
        }),
        pending.len() > 0 && !text::is_space(pending.last()) ==> accumulated(
            pending,
            line,
        )[pending.len() as int] == ' ',
{
    reveal_strlit(" ");
    let t = accumulated(pending, line);
    assert(t.subrange(0, pending.len() as int) =~= pending);
    assert(t.subrange(t.len() - line.len(), t.len() as int) =~= line);
}

/// The words `exit` and `quit`, in whatever letter case and with white space around them, are a
/// farewell, and nothing else is; a farewell is answered with the same words.
pub proof fn law_farewells_are_exit_and_quit(pending: Seq<char>, line: Seq<char>)
    ensures
        is_farewell(line) <==> text::ascii_lower(text::trim(line)) == "exit"@ || text::ascii_lower(
            text::trim(line),
        ) == "quit"@,
        step(pending, line) matches StepView::Exit(answer) ==> answer == "Exiting RookDB..!"@,
        is_farewell(line) && pending.len() == 0 ==> step(pending, line) is Exit,
{
    reveal_strlit("exit");
    reveal_strlit("quit");
    assert(text::ascii_lower("exit"@) =~= "exit"@);
    assert(text::ascii_lower("quit"@) =~= "quit"@);
    law_farewell_leaves(pending, line);
}

/// A line that is no farewell runs the statements that it completes, all of them and in order, and
/// what it does not complete stays pending; a blank line with nothing pending runs nothing.
pub proof fn law_lines_run_what_they_complete(pending: Seq<char>, line: Seq<char>)
    requires
        !leaves(pending, line),
    ensures
        step(pending, line) is Wait ==> pending_after(pending, line) == accumulated(pending, line),
        text::trim(line).len() > 0 ==> step(pending, line) == StepView::Run(
            statements::statements(accumulated(pending, line)),
        ) && pending_after(pending, line) == statements::remainder(accumulated(pending, line)),
        step(pending, line) is Wait ==> text::trim(line).len() == 0 && text::trim(
            accumulated(pending, line),
        ).len() == 0,
{
}

/// The lines of a text, put together again with line ends between them, are the text; none holds a
/// line end.
pub proof fn law_lines_make_the_text(s: Seq<char>)
    ensures
        text::joined(lines(s), seq!['\n']) == s,
        lines(s).len() > 0,
        forall|i: int| 0 <= i < lines(s).len() ==> !(#[trigger] lines(s)[i]).contains('\n'),
    decreases s.len(),
{
    text::lemma_find(s, '\n');
    match text::find(s, '\n') {
        None => {
            assert(text::joined(lines(s), seq!['\n']) == s);
        },
        Some(k) => {
            let rest = s.skip(k + 1);
            let first = s.take(k);
            law_lines_make_the_text(rest);
            lemma_join_first(first, lines(rest), seq!['\n']);
            assert(first + seq!['\n'] + rest =~= s);
            let all = lines(s);
            assert forall|i: int| 0 <= i < all.len() implies !(#[trigger] all[i]).contains('\n') by {
                if i > 0 {
                    assert(all[i] == lines(rest)[i - 1]);
                } else {
                    assert(all[0] == first);
                    assert forall|j: int| 0 <= j < first.len() implies first[j] != '\n' by {
                        assert(first[j] == s[j]);
                    }
                }
            }
        },
    }
}

proof fn lemma_join_first(first: Seq<char>, parts: Seq<Seq<char>>, sep: Seq<char>)
    requires
        parts.len() > 0,
    ensures
        text::joined(seq![first] + parts, sep) == first + sep + text::joined(parts, sep),
    decreases parts.len(),
{
    let all = seq![first] + parts;
    let last = parts.last();
    if parts.len() == 1 {
        assert(all.drop_last() =~= seq![first]);
        assert(text::joined(seq![first], sep) == first);
    } else {
        let front = parts.drop_last();
        lemma_join_first(first, front, sep);
        assert(all.drop_last() =~= seq![first] + front);
        assert(first + sep + text::joined(front, sep) + sep + last =~= first + sep + (text::joined(
            front,
            sep,
        ) + sep + last));
    }
}

/// An echoed statement is shown line by line: every line that is not blank is in the box, trimmed,
/// in its order, between the box's top and its bottom; a `USE` is shown on one line, and a blank
/// statement is not shown.
pub proof fn law_statements_are_echoed_line_by_line(
    sql: Seq<char>,
    upper: Seq<char>,
    rows: Seq<Seq<char>>,
    row: Seq<char>,
)
    ensures
        text::trim(sql).len() == 0 ==> banner(sql, upper).len() == 0,
        text::trim(sql).len() > 0 && "USE "@.is_prefix_of(upper) ==> banner(sql, upper).len() == 1
            && text::contains(banner(sql, upper)[0], text::trim(sql)),
        text::trim(sql).len() > 0 && !"USE "@.is_prefix_of(upper) ==> banner(sql, upper).len()
            == banner_body(lines(text::trim(sql))).len() + 2 && banner(sql, upper).subrange(
            1,
            banner(sql, upper).len() - 1,
        ) == banner_body(lines(text::trim(sql))),
        banner_body(Seq::empty()).len() == 0,
        text::trim(row).len() == 0 ==> banner_body(rows.push(row)) == banner_body(rows),
        text::trim(row).len() > 0 ==> banner_body(rows.push(row)).drop_last() == banner_body(rows)
            && text::contains(banner_body(rows.push(row)).last(), text::trim(row)),
{
    let statement = text::trim(sql);
    let b = banner(sql, upper);
    if statement.len() > 0 {
        if "USE "@.is_prefix_of(upper) {
            let lead = "\n\x1b[1;36m▶\x1b[0m \x1b[1;37m"@;
            lemma_holds(lead, statement, "\x1b[0m"@);
        } else {
            assert(b.subrange(1, b.len() - 1) =~= banner_body(lines(statement)));
        }
    }
    assert(rows.push(row).drop_last() =~= rows);
    if text::trim(row).len() > 0 {
        lemma_holds("\x1b[1;36m║\x1b[0m  \x1b[1;37m"@, text::trim(row), "\x1b[0m"@);
        assert(banner_body(rows.push(row)).drop_last() =~= banner_body(rows));
    }
}

proof fn lemma_holds(lead: Seq<char>, s: Seq<char>, tail: Seq<char>)
    ensures
        text::contains(lead + s + tail, s),
{
    let t = lead + s + tail;
    let n = lead.len() as int;
    assert(t.subrange(n, n + s.len()) =~= s);
    assert(text::occurs_at(t, s, n));
}

/// A blank text and a comment are nothing to carry out; any other text is what the parser makes of
/// it, or is refused with what the parser finds wrong with it.
pub proof fn law_statements_are_read_as_the_parser_does(
    r: Reading,
    sql: Seq<char>,
    json: Seq<char>,
    e: Seq<char>,
)
    ensures
        text::trim(sql).len() == 0 || "--"@.is_prefix_of(text::trim(sql)) ==> (reading(
            r,
            sql,
            Ok(json),
        ) <==> r is Nothing) && (reading(r, sql, Err(e)) <==> r is Nothing),
        text::trim(sql).len() > 0 && !"--"@.is_prefix_of(text::trim(sql)) && reading(r, sql, Ok(json))
            ==> (r matches Reading::Parsed(j) && j@ == json),
        text::trim(sql).len() > 0 && !"--"@.is_prefix_of(text::trim(sql)) && reading(r, sql, Err(e))
            ==> (r matches Reading::Refused(line) && line@ == "Parse error: "@ + e),
{
}

/// The prompt names the selected database, if there is one; while a statement is pending it is
/// another one.
pub proof fn law_prompt_shows_where_the_user_is(
    current_db: Option<String>,
    pending: &str,
    shown: String,
)
    requires
        call_ensures(prompt, (&current_db, pending), shown),
    ensures
        pending@.len() > 0 ==> shown@ == "... "@,
        pending@.len() == 0 ==> (current_db matches Some(db) ==> shown@ == "rookdb ("@ + db@
            + ")> "@),
        pending@.len() == 0 && current_db is None ==> shown@ == "rookdb> "@,
{
}

/// At the end of the input a statement that is still pending is carried out as if it had its
/// terminator, and blank input is not.
pub proof fn law_pending_statement_is_finished(pending: &str, last: Option<String>)
    requires
        call_ensures(finish, (pending,), last),
    ensures
        text::trim(pending@).len() == 0 ==> last is None,
        text::trim(pending@).len() > 0 ==> (last matches Some(s) && s@ == text::trim(pending@)),
        (forall|i: int| 0 <= i < pending@.len() ==> statements::is_plain(#[trigger] pending@[i])) && (
        last matches Some(s) && s@.len() > 0) ==> statements::statements(pending@.push(';'))
            == seq![last->0@],
{
    if forall|i: int| 0 <= i < pending@.len() ==> statements::is_plain(#[trigger] pending@[i]) {
        statements::law_plain_text_is_one_statement(pending@);
    }
}

/// Statements are echoed where the variable is set to anything but `0`; without it and without
/// arguments they are not.
pub proof fn law_echo_is_asked_for_by_the_variable(
    args: Vec<String>,
    variable: Option<String>,
    echo: bool,
)
    requires
        call_ensures(echo_enabled, (&args, &variable), echo),
    ensures
        variable is Some && variable->0@ != "0"@ ==> echo,
        args@.len() == 0 && (variable is None || variable->0@ == "0"@) ==> !echo,
{
}

/// The box around an echoed statement has a top and a bottom of one width each, whatever the
/// statement is.
pub proof fn law_echo_boxes_are_alike(sql: Seq<char>, upper: Seq<char>, row: Seq<char>, n: nat, i: int)
    ensures
        text::trim(sql).len() > 0 && !"USE "@.is_prefix_of(upper) ==> {
            let lines = banner(sql, upper);
            &&& lines[0] == "\n\x1b[1;36m╔══ \x1b[1;97;44m SQL ❯ \x1b[0;1;36m"@ + Seq::new(
                69,
                |k: int| '═',
            ) + "\x1b[0m"@
            &&& lines.last() == "\x1b[1;36m╚"@ + Seq::new(78, |k: int| '═') + "\x1b[0m"@
        },
        text::trim(sql).len() > 0 && "USE "@.is_prefix_of(upper) ==> banner(sql, upper)[0]
            == "\n\x1b[1;36m▶\x1b[0m \x1b[1;37m"@ + text::trim(sql) + "\x1b[0m"@,
        text::trim(row).len() > 0 ==> banner_body(seq![row]) == seq![
            "\x1b[1;36m║\x1b[0m  \x1b[1;37m"@ + text::trim(row) + "\x1b[0m"@,
        ],
        bar(n).len() == n,
        0 <= i < n ==> bar(n)[i] == '═',
{
    assert(bar(69) =~= Seq::new(69, |k: int| '═'));
    assert(bar(78) =~= Seq::new(78, |k: int| '═'));
    assert(seq![row].drop_last() =~= Seq::<Seq<char>>::empty());
    reveal_with_fuel(banner_body, 2);
    assert(text::trim(row).len() > 0 ==> banner_body(seq![row]) =~= seq![
        "\x1b[1;36m║\x1b[0m  \x1b[1;37m"@ + text::trim(row) + "\x1b[0m"@,
    ]);
}

} // verus!
