//! Engine log records as lines for the terminal: filtered, tagged and coloured.

use vstd::prelude::*;
use crate::text;

verus! {

#[derive(Debug, Clone, Copy, PartialEq, Eq, Structural)]
pub enum LogLevel {
    Error,
    Warn,
    /// Any level below.
    Info,
}

/// A record of the engine's housekeeping, which is not shown.
pub open spec fn is_noise(msg: Seq<char>) -> bool {
    ||| "[BTree::open]"@.is_prefix_of(msg)
    ||| "[init_table]"@.is_prefix_of(msg)
    ||| "[SystemCatalog]"@.is_prefix_of(msg)
    ||| text::contains(msg, "catalog directory"@)
    ||| text::contains(msg, "Saving catalog"@)
    ||| text::contains(msg, "Loading catalog"@)
    ||| text::contains(msg, "Initializing catalog"@)
    ||| text::contains(msg, "New table initialized"@)
    ||| text::contains(msg, "Table data file created"@)
    ||| "initialized successfully."@.is_suffix_of(msg)
    ||| "saved to catalog."@.is_suffix_of(msg)
    ||| text::contains(msg, "Starting single tuple insertion"@)
    ||| text::contains(msg, "Successfully inserted at"@)
    ||| "[Volcano] Plan: "@.is_prefix_of(msg)
    ||| "[Volcano] Executing logical plan"@.is_prefix_of(msg)
}

/// The first position where `p` occurs in `s`.
pub open spec fn find_text(s: Seq<char>, p: Seq<char>) -> Option<int>
    decreases s.len(),
{
    if p.is_prefix_of(s) {
        Some(0)
    } else if s.len() == 0 {
        None
    } else {
        match find_text(s.drop_first(), p) {
            Some(i) => Some(i + 1),
            None => None,
        }
    }
}

/// What stands in `s` before the first `p`; all of it where there is none.
pub open spec fn before_text(s: Seq<char>, p: Seq<char>) -> Seq<char> {
    match find_text(s, p) {
        Some(i) => s.take(i),
        None => s,
    }
}

/// The text in the first pair of single quotes; `table` where there is no quote.
pub open spec fn quoted_name(msg: Seq<char>) -> Seq<char> {
    match text::find(msg, '\'') {
        Some(i) => text::before(msg.skip(i + 1), '\''),
        None => "table"@,
    }
}

/// The place that a record of a validated row names.
pub open spec fn updated_place(msg: Seq<char>) -> Seq<char> {
    text::trim(text::strip_all(text::before(msg, ':'), "[Update] Validated row at "@))
}

/// The place that a record of a deleted row names.
pub open spec fn deleted_place(msg: Seq<char>) -> Seq<char> {
    match find_text(msg, "slot "@) {
        Some(i) => text::trim(before_text(msg.skip(i + "slot "@.len()), ", updated"@)),
        None => Seq::empty(),
    }
}

/// A tag, and the message without its own marker.
pub open spec fn tagged(tag: Seq<char>, msg: Seq<char>, marker: Seq<char>) -> Option<Seq<char>> {
    Some(tag + text::strip_all(msg, marker))
}

/// The line of a `[Volcano]` record, one of the planner's or the executor's decisions.
pub open spec fn volcano_line(msg: Seq<char>) -> Option<Seq<char>> {
    let marker = "[Volcano] "@;
    if "[Volcano] Using HashJoin"@.is_prefix_of(msg) {
        tagged("  \x1b[1;35m[JOIN]\x1b[0m       "@, msg, marker)
    } else if "[Volcano] Using IndexNestedLoopJoin"@.is_prefix_of(msg) {
        tagged("  \x1b[1;35m[JOIN]\x1b[0m       "@, msg, marker)
    } else if "[Volcano] Index-accelerated scan:"@.is_prefix_of(msg) {
        tagged("  \x1b[1;32m[INDEX SCAN]\x1b[0m "@, msg, marker)
    } else if "[Volcano] Using index-accelerated scan"@.is_prefix_of(msg) {
        None
    } else if "[Volcano] Named index"@.is_prefix_of(msg) {
        Some(
            "  \x1b[1;32m[INDEX SCAN]\x1b[0m Table '"@ + (if text::contains(
                msg,
                "emp.emp_dept_idx"@,
            ) {
                "emp"@
            } else {
                "table"@
            }) + "' scanned via index 'emp_dept_idx' (FullScan)"@,
        )
    } else if "[Volcano] No index file found for table"@.is_prefix_of(msg) {
        Some(
            "  \x1b[1;36m[SCAN]\x1b[0m       Table '"@ + quoted_name(msg)
                + "' has no index, using SeqScan"@,
        )
    } else if "[Volcano] Sort has limit"@.is_prefix_of(msg) {
        tagged("  \x1b[1;33m[OPTIMIZE]\x1b[0m   "@, msg, marker)
    } else if "[Volcano] Built physical operator tree"@.is_prefix_of(msg) {
        tagged("  \x1b[1;34m[PIPELINE]\x1b[0m   "@, msg, marker)
    } else {
        tagged("  \x1b[1;34m[PLANNER]\x1b[0m    "@, msg, marker)
    }
}

/// The line of an `[Update]` record.
pub open spec fn update_line(msg: Seq<char>) -> Option<Seq<char>> {
    if "[Update] Validated row at"@.is_prefix_of(msg) {
        Some(
            "  \x1b[1;33m[DML:UPDATE]\x1b[0m Row at "@ + updated_place(msg)
                + " validated & updated (appended new version, old marked deleted)"@,
        )
    } else if "[Update] Marked old slot"@.is_prefix_of(msg) {
        None
    } else {
        tagged("  \x1b[1;33m[DML:UPDATE]\x1b[0m "@, msg, "[Update] "@)
    }
}

/// The line of a `[Delete]` record.
pub open spec fn delete_line(msg: Seq<char>) -> Option<Seq<char>> {
    if "[Delete] Soft-deleted slot"@.is_prefix_of(msg) {
        Some(
            "  \x1b[1;33m[DML:DELETE]\x1b[0m Soft-deleted row at "@ + deleted_place(msg)
                + ", updated index and visibility map"@,
        )
    } else {
        tagged("  \x1b[1;33m[DML:DELETE]\x1b[0m "@, msg, "[Delete] "@)
    }
}

/// The line that is shown for a record; none for one that is not shown.
pub open spec fn shown_line(msg: Seq<char>, level: LogLevel) -> Option<Seq<char>> {
    if is_noise(msg) {
        None
    } else if "[Volcano]"@.is_prefix_of(msg) {
        volcano_line(msg)
    } else if "[Insert]"@.is_prefix_of(msg) {
        tagged("  \x1b[1;33m[DML:INSERT]\x1b[0m "@, msg, "[Insert] "@)
    } else if "[Update]"@.is_prefix_of(msg) {
        update_line(msg)
    } else if "[Delete]"@.is_prefix_of(msg) {
        delete_line(msg)
    } else if "[CreateIndex]"@.is_prefix_of(msg) {
        tagged("  \x1b[1;32m[INDEX]\x1b[0m      "@, msg, "[CreateIndex] "@)
    } else if level == LogLevel::Warn {
        Some("  \x1b[1;33m[WARN]\x1b[0m       "@ + msg)
    } else if level == LogLevel::Error {
        Some("  \x1b[1;31m[ERROR]\x1b[0m      "@ + msg)
    } else {
        Some("  │ "@ + msg)
    }
}

pub open spec fn line_view(r: Option<String>) -> Option<Seq<char>> {
    match r {
        Some(s) => Some(s@),
        None => None,
    }
}

fn noise(msg: &str) -> (r: bool)
    ensures
        r == is_noise(msg@),
{
    text::starts_with(msg, "[BTree::open]") || text::starts_with(msg, "[init_table]")
        || text::starts_with(msg, "[SystemCatalog]") || text::contains_text(
        msg,
        "catalog directory",
    ) || text::contains_text(msg, "Saving catalog") || text::contains_text(msg, "Loading catalog")
        || text::contains_text(msg, "Initializing catalog") || text::contains_text(
        msg,
        "New table initialized",
    ) || text::contains_text(msg, "Table data file created") || text::ends_with(
        msg,
        "initialized successfully.",
    ) || text::ends_with(msg, "saved to catalog.") || text::contains_text(
        msg,
        "Starting single tuple insertion",
    ) || text::contains_text(msg, "Successfully inserted at") || text::starts_with(
        msg,
        "[Volcano] Plan: ",
    ) || text::starts_with(msg, "[Volcano] Executing logical plan")
}

fn tag(lead: &str, msg: &str, marker: &str) -> (r: Option<String>)
    ensures
        line_view(r) == tagged(lead@, msg@, marker@),
{
    Some(text::cat2(lead, text::strip_prefixes(msg, marker)))
}

/// The first position where `p` occurs in `s`.
pub fn find_str(s: &str, p: &str) -> (r: Option<usize>)
    ensures
        match r {
            Some(i) => i + p@.len() <= s@.len() && find_text(s@, p@) == Some(i as int),
            None => find_text(s@, p@) is None,
        },
{
    let v = text::chars_of(s);
    let w = text::chars_of(p);
    let mut i: usize = 0;
    assert(s@.skip(0) =~= s@);
    loop
        invariant
            i <= v.len(),
            v@ == s@,
            w@ == p@,
            find_text(s@, p@) == match find_text(s@.skip(i as int), p@) {
                Some(k) => Some(k + i),
                None => None::<int>,
            },
        decreases v.len() - i,
    {
        let ghost rest = s@.skip(i as int);
        if text::matches_at(&v, &w, i) {
            assert(rest.take(p@.len() as int) =~= s@.subrange(i as int, i + p@.len()));
            assert(p@.is_prefix_of(rest));
            return Some(i);
        }
        assert(!p@.is_prefix_of(rest)) by {
            if p@.is_prefix_of(rest) {
                assert(p@ =~= rest.take(p@.len() as int));
                assert(s@.subrange(i as int, i + p@.len()) =~= p@);
            }
        }
        if i == v.len() {
            assert(rest.len() == 0);
            return None;
        }
        assert(rest.drop_first() =~= s@.skip(i + 1));
        i = i + 1;
    }
}

fn before_str<'a>(s: &'a str, p: &str) -> (r: &'a str)
    ensures
        r@ == before_text(s@, p@),
{
    match find_str(s, p) {
        Some(i) => text::head(s, i),
        None => s,
    }
}

fn volcano(msg: &str) -> (r: Option<String>)
    ensures
        line_view(r) == volcano_line(msg@),
{
    let marker = "[Volcano] ";
    if text::starts_with(msg, "[Volcano] Using HashJoin") {
        tag("  \x1b[1;35m[JOIN]\x1b[0m       ", msg, marker)
    } else if text::starts_with(msg, "[Volcano] Using IndexNestedLoopJoin") {
        tag("  \x1b[1;35m[JOIN]\x1b[0m       ", msg, marker)
    } else if text::starts_with(msg, "[Volcano] Index-accelerated scan:") {
        tag("  \x1b[1;32m[INDEX SCAN]\x1b[0m ", msg, marker)
    } else if text::starts_with(msg, "[Volcano] Using index-accelerated scan") {
        None
    } else if text::starts_with(msg, "[Volcano] Named index") {
        let table = if text::contains_text(msg, "emp.emp_dept_idx") {
            "emp"
        } else {
            "table"
        };
        Some(
            text::cat3(
                "  \x1b[1;32m[INDEX SCAN]\x1b[0m Table '",
                table,
                "' scanned via index 'emp_dept_idx' (FullScan)",
            ),
        )
    } else if text::starts_with(msg, "[Volcano] No index file found for table") {
        let table = match text::find_char(msg, '\'') {
            Some(i) => text::before_char(text::tail(msg, i + 1), '\''),
            None => "table",
        };
        Some(
            text::cat3(
                "  \x1b[1;36m[SCAN]\x1b[0m       Table '",
                table,
                "' has no index, using SeqScan",
            ),
        )
    } else if text::starts_with(msg, "[Volcano] Sort has limit") {
        tag("  \x1b[1;33m[OPTIMIZE]\x1b[0m   ", msg, marker)
    } else if text::starts_with(msg, "[Volcano] Built physical operator tree") {
        tag("  \x1b[1;34m[PIPELINE]\x1b[0m   ", msg, marker)
    } else {
        tag("  \x1b[1;34m[PLANNER]\x1b[0m    ", msg, marker)
    }
}

fn updated(msg: &str) -> (r: Option<String>)
    ensures
        line_view(r) == update_line(msg@),
{
    if text::starts_with(msg, "[Update] Validated row at") {
        let place = text::trimmed(
            text::strip_prefixes(text::before_char(msg, ':'), "[Update] Validated row at "),
        );
        Some(
            text::cat3(
                "  \x1b[1;33m[DML:UPDATE]\x1b[0m Row at ",
                place,
                " validated & updated (appended new version, old marked deleted)",
            ),
        )
    } else if text::starts_with(msg, "[Update] Marked old slot") {
        None
    } else {
        tag("  \x1b[1;33m[DML:UPDATE]\x1b[0m ", msg, "[Update] ")
    }
}

fn deleted(msg: &str) -> (r: Option<String>)
    ensures
        line_view(r) == delete_line(msg@),
{
    if text::starts_with(msg, "[Delete] Soft-deleted slot") {
        let place = match find_str(msg, "slot ") {
            Some(i) => {
                let n: usize = "slot ".unicode_len();
                let rest = text::tail(text::tail(msg, i), n);
                assert(rest@ =~= msg@.skip(i + n));
                text::trimmed(before_str(rest, ", updated"))
            },
            None => "",
        };
        proof {
            reveal_strlit("");
            assert(""@ =~= Seq::<char>::empty());
        }
        Some(
            text::cat3(
                "  \x1b[1;33m[DML:DELETE]\x1b[0m Soft-deleted row at ",
                place,
                ", updated index and visibility map",
            ),
        )
    } else {
        tag("  \x1b[1;33m[DML:DELETE]\x1b[0m ", msg, "[Delete] ")
    }
}

/// The line to show for a log record; none for one that is not shown.
pub fn format_record(msg: &str, level: LogLevel) -> (r: Option<String>)
    ensures
        line_view(r) == shown_line(msg@, level),
{
    if noise(msg) {
        None
    } else if text::starts_with(msg, "[Volcano]") {
        volcano(msg)
    } else if text::starts_with(msg, "[Insert]") {
        tag("  \x1b[1;33m[DML:INSERT]\x1b[0m ", msg, "[Insert] ")
    } else if text::starts_with(msg, "[Update]") {
        updated(msg)
    } else if text::starts_with(msg, "[Delete]") {
        deleted(msg)
    } else if text::starts_with(msg, "[CreateIndex]") {
        tag("  \x1b[1;32m[INDEX]\x1b[0m      ", msg, "[CreateIndex] ")
    } else if level == LogLevel::Warn {
        Some(text::cat2("  \x1b[1;33m[WARN]\x1b[0m       ", msg))
    } else if level == LogLevel::Error {
        Some(text::cat2("  \x1b[1;31m[ERROR]\x1b[0m      ", msg))
    } else {
        Some(text::cat2("  │ ", msg))
    }
}

/// The records of the engine's housekeeping are not shown, whatever else they say and at whatever
/// level.
pub proof fn law_housekeeping_is_not_shown(a: Seq<char>, b: Seq<char>, level: LogLevel)
    ensures
        shown_line("[BTree::open]"@ + b, level) is None,
        shown_line("[init_table]"@ + b, level) is None,
        shown_line("[SystemCatalog]"@ + b, level) is None,
        shown_line("[Volcano] Plan: "@ + b, level) is None,
        shown_line("[Volcano] Executing logical plan"@ + b, level) is None,
        shown_line(a + "catalog directory"@ + b, level) is None,
        shown_line(a + "Saving catalog"@ + b, level) is None,
        shown_line(a + "Loading catalog"@ + b, level) is None,
        shown_line(a + "Initializing catalog"@ + b, level) is None,
        shown_line(a + "New table initialized"@ + b, level) is None,
        shown_line(a + "Table data file created"@ + b, level) is None,
        shown_line(a + "Starting single tuple insertion"@ + b, level) is None,
        shown_line(a + "Successfully inserted at"@ + b, level) is None,
        shown_line(a + "initialized successfully."@, level) is None,
        shown_line(a + "saved to catalog."@, level) is None,
{
    lemma_starts("[BTree::open]"@, b);
    lemma_starts("[init_table]"@, b);
    lemma_starts("[SystemCatalog]"@, b);
    lemma_starts("[Volcano] Plan: "@, b);
    lemma_starts("[Volcano] Executing logical plan"@, b);
    lemma_holds(a, "catalog directory"@, b);
    lemma_holds(a, "Saving catalog"@, b);
    lemma_holds(a, "Loading catalog"@, b);
    lemma_holds(a, "Initializing catalog"@, b);
    lemma_holds(a, "New table initialized"@, b);
    lemma_holds(a, "Table data file created"@, b);
    lemma_holds(a, "Starting single tuple insertion"@, b);
    lemma_holds(a, "Successfully inserted at"@, b);
    lemma_ends(a, "initialized successfully."@);
    lemma_ends(a, "saved to catalog."@);
}

proof fn lemma_starts(p: Seq<char>, s: Seq<char>)
    ensures
        p.is_prefix_of(p + s),
{
    assert((p + s).subrange(0, p.len() as int) =~= p);
}

proof fn lemma_ends(s: Seq<char>, p: Seq<char>)
    ensures
        p.is_suffix_of(s + p),
{
    let t = s + p;
    assert(t.subrange(t.len() - p.len(), t.len() as int) =~= p);
}

proof fn lemma_holds(a: Seq<char>, p: Seq<char>, b: Seq<char>)
    ensures
        text::contains(a + p + b, p),
{
    let n = a.len() as int;
    assert((a + p + b).subrange(n, n + p.len()) =~= p);
    assert(text::occurs_at(a + p + b, p, n));
}

/// Any other record is shown with all that it says: one without a marker of the engine's under its
/// level, and one with a marker under the marker's tag, without the marker.
pub proof fn law_records_are_shown_under_their_tag(msg: Seq<char>, rest: Seq<char>)
    ensures
        !is_noise(msg) && (msg.len() == 0 || msg[0] != '[') ==> {
            &&& shown_line(msg, LogLevel::Error) == Some("  \x1b[1;31m[ERROR]\x1b[0m      "@ + msg)
            &&& shown_line(msg, LogLevel::Warn) == Some("  \x1b[1;33m[WARN]\x1b[0m       "@ + msg)
            &&& shown_line(msg, LogLevel::Info) == Some("  │ "@ + msg)
        },
        msg == "[Insert] "@ + rest && !is_noise(msg) && !"[Insert] "@.is_prefix_of(rest) ==> (
        forall|level: LogLevel| #[trigger]
            shown_line(msg, level) == Some("  \x1b[1;33m[DML:INSERT]\x1b[0m "@ + rest)),
        msg == "[CreateIndex] "@ + rest && !is_noise(msg) && !"[CreateIndex] "@.is_prefix_of(rest)
            ==> (forall|level: LogLevel| #[trigger]
            shown_line(msg, level) == Some("  \x1b[1;32m[INDEX]\x1b[0m      "@ + rest)),
{
    reveal_strlit("[Volcano]");
    reveal_strlit("[Insert]");
    reveal_strlit("[Insert] ");
    reveal_strlit("[Update]");
    reveal_strlit("[Delete]");
    reveal_strlit("[CreateIndex]");
    reveal_strlit("[CreateIndex] ");
    if !is_noise(msg) && (msg.len() == 0 || msg[0] != '[') {
        lemma_no_marker(msg, "[Volcano]"@);
        lemma_no_marker(msg, "[Insert]"@);
        lemma_no_marker(msg, "[Update]"@);
        lemma_no_marker(msg, "[Delete]"@);
        lemma_no_marker(msg, "[CreateIndex]"@);
    }
    if msg == "[Insert] "@ + rest {
        assert(msg[1] == 'I');
        assert(msg.subrange(0, 8) =~= "[Insert]"@);
        if "[Volcano]"@.is_prefix_of(msg) {
            assert(msg[1] == "[Volcano]"@[1]);
        }
        text::law_stripping_takes_the_front_off("[Insert] "@, rest);
    }
    if msg == "[CreateIndex] "@ + rest {
        assert(msg[1] == 'C');
        assert(msg.subrange(0, 13) =~= "[CreateIndex]"@);
        lemma_other_marker(msg, "[Volcano]"@);
        lemma_other_marker(msg, "[Insert]"@);
        lemma_other_marker(msg, "[Update]"@);
        lemma_other_marker(msg, "[Delete]"@);
        text::law_stripping_takes_the_front_off("[CreateIndex] "@, rest);
    }
}

proof fn lemma_no_marker(msg: Seq<char>, marker: Seq<char>)
    requires
        marker.len() > 0,
        marker[0] == '[',
        msg.len() == 0 || msg[0] != '[',
    ensures
        !marker.is_prefix_of(msg),
{
    if marker.is_prefix_of(msg) {
        assert(msg[0] == marker[0]);
    }
}

proof fn lemma_other_marker(msg: Seq<char>, marker: Seq<char>)
    requires
        marker.len() > 1,
        msg.len() > 1,
        marker[1] != msg[1],
    ensures
        !marker.is_prefix_of(msg),
{
    if marker.is_prefix_of(msg) {
        assert(msg[1] == marker[1]);
    }
}

/// A decision of the planner's is shown under what it is about: a join, a scan over an index, an
/// optimization, the pipeline, and the plan for any other.
pub proof fn law_decisions_are_shown_under_their_tag(rest: Seq<char>)
    requires
        !"[Volcano] "@.is_prefix_of(rest),
    ensures
        volcano_line("[Volcano] Using HashJoin"@ + rest) == Some(
            "  \x1b[1;35m[JOIN]\x1b[0m       Using HashJoin"@ + rest,
        ),
        volcano_line("[Volcano] Using index-accelerated scan"@ + rest) is None,
        volcano_line("[Volcano] Sort has limit"@ + rest) == Some(
            "  \x1b[1;33m[OPTIMIZE]\x1b[0m   Sort has limit"@ + rest,
        ),
        volcano_line("[Volcano] Built physical operator tree"@ + rest) == Some(
            "  \x1b[1;34m[PIPELINE]\x1b[0m   Built physical operator tree"@ + rest,
        ),
{
    lemma_hash_join(rest);
    lemma_index_scan(rest);
    lemma_sort_limit(rest);
    lemma_pipeline(rest);
}

proof fn lemma_stripped(body: Seq<char>)
    requires
        body.len() > 0,
        body[0] != '[',
    ensures
        text::strip_all("[Volcano] "@ + body, "[Volcano] "@) == body,
{
    reveal_strlit("[Volcano] ");
    text::law_stripping_takes_the_front_off("[Volcano] "@, body);
    lemma_no_marker(body, "[Volcano] "@);
}

proof fn lemma_hash_join(rest: Seq<char>)
    ensures
        volcano_line("[Volcano] Using HashJoin"@ + rest) == Some(
            "  \x1b[1;35m[JOIN]\x1b[0m       Using HashJoin"@ + rest,
        ),
{
    reveal_strlit("[Volcano] Using HashJoin");
    reveal_strlit("[Volcano] ");
    reveal_strlit("Using HashJoin");
    reveal_strlit("  \x1b[1;35m[JOIN]\x1b[0m       ");
    reveal_strlit("  \x1b[1;35m[JOIN]\x1b[0m       Using HashJoin");
    let body = "Using HashJoin"@ + rest;
    let msg = "[Volcano] Using HashJoin"@ + rest;
    assert(msg =~= "[Volcano] "@ + body);
    assert(body[0] == 'U');
    lemma_starts("[Volcano] Using HashJoin"@, rest);
    lemma_stripped(body);
    assert("  \x1b[1;35m[JOIN]\x1b[0m       "@ + body
        =~= "  \x1b[1;35m[JOIN]\x1b[0m       Using HashJoin"@ + rest);
}

proof fn lemma_at(msg: Seq<char>, p: Seq<char>, i: int)
    requires
        0 <= i < p.len(),
        i < msg.len() ==> msg[i] != p[i],
    ensures
        !p.is_prefix_of(msg),
{
    if p.is_prefix_of(msg) {
        assert(msg[i] == p[i]);
    }
}

proof fn lemma_index_scan(rest: Seq<char>)
    ensures
        volcano_line("[Volcano] Using index-accelerated scan"@ + rest) is None,
{
    reveal_strlit("[Volcano] Using index-accelerated scan");
    reveal_strlit("[Volcano] Using HashJoin");
    reveal_strlit("[Volcano] Using IndexNestedLoopJoin");
    reveal_strlit("[Volcano] Index-accelerated scan:");
    let msg = "[Volcano] Using index-accelerated scan"@ + rest;
    lemma_starts("[Volcano] Using index-accelerated scan"@, rest);
    lemma_at(msg, "[Volcano] Using HashJoin"@, 16);
    lemma_at(msg, "[Volcano] Using IndexNestedLoopJoin"@, 16);
    lemma_at(msg, "[Volcano] Index-accelerated scan:"@, 10);
}

proof fn lemma_sort_limit(rest: Seq<char>)
    ensures
        volcano_line("[Volcano] Sort has limit"@ + rest) == Some(
            "  \x1b[1;33m[OPTIMIZE]\x1b[0m   Sort has limit"@ + rest,
        ),
{
    reveal_strlit("[Volcano] Sort has limit");
    reveal_strlit("[Volcano] ");
    reveal_strlit("Sort has limit");
    reveal_strlit("  \x1b[1;33m[OPTIMIZE]\x1b[0m   ");
    reveal_strlit("  \x1b[1;33m[OPTIMIZE]\x1b[0m   Sort has limit");
    let body = "Sort has limit"@ + rest;
    let msg = "[Volcano] Sort has limit"@ + rest;
    assert(msg =~= "[Volcano] "@ + body);
    lemma_starts("[Volcano] Sort has limit"@, rest);
    lemma_stripped(body);
    lemma_not_before(msg);
    assert("  \x1b[1;33m[OPTIMIZE]\x1b[0m   "@ + body
        =~= "  \x1b[1;33m[OPTIMIZE]\x1b[0m   Sort has limit"@ + rest);
}

proof fn lemma_not_before(msg: Seq<char>)
    requires
        msg.len() > 10,
        msg[10] == 'S' || msg[10] == 'B',
    ensures
        !"[Volcano] Using HashJoin"@.is_prefix_of(msg),
        !"[Volcano] Using IndexNestedLoopJoin"@.is_prefix_of(msg),
        !"[Volcano] Index-accelerated scan:"@.is_prefix_of(msg),
        !"[Volcano] Using index-accelerated scan"@.is_prefix_of(msg),
        !"[Volcano] Named index"@.is_prefix_of(msg),
        !"[Volcano] No index file found for table"@.is_prefix_of(msg),
        msg[10] == 'B' ==> !"[Volcano] Sort has limit"@.is_prefix_of(msg),
{
    reveal_strlit("[Volcano] Using HashJoin");
    reveal_strlit("[Volcano] Using IndexNestedLoopJoin");
    reveal_strlit("[Volcano] Index-accelerated scan:");
    reveal_strlit("[Volcano] Using index-accelerated scan");
    reveal_strlit("[Volcano] Named index");
    reveal_strlit("[Volcano] No index file found for table");
    reveal_strlit("[Volcano] Sort has limit");
    lemma_at(msg, "[Volcano] Using HashJoin"@, 10);
    lemma_at(msg, "[Volcano] Using IndexNestedLoopJoin"@, 10);
    lemma_at(msg, "[Volcano] Index-accelerated scan:"@, 10);
    lemma_at(msg, "[Volcano] Using index-accelerated scan"@, 10);
    lemma_at(msg, "[Volcano] Named index"@, 10);
    lemma_at(msg, "[Volcano] No index file found for table"@, 10);
    if msg[10] == 'B' {
        lemma_at(msg, "[Volcano] Sort has limit"@, 10);
    }
}

proof fn lemma_pipeline(rest: Seq<char>)
    ensures
        volcano_line("[Volcano] Built physical operator tree"@ + rest) == Some(
            "  \x1b[1;34m[PIPELINE]\x1b[0m   Built physical operator tree"@ + rest,
        ),
{
    reveal_strlit("[Volcano] Built physical operator tree");
    reveal_strlit("[Volcano] ");
    reveal_strlit("Built physical operator tree");
    reveal_strlit("  \x1b[1;34m[PIPELINE]\x1b[0m   ");
    reveal_strlit("  \x1b[1;34m[PIPELINE]\x1b[0m   Built physical operator tree");
    let body = "Built physical operator tree"@ + rest;
    let msg = "[Volcano] Built physical operator tree"@ + rest;
    assert(msg =~= "[Volcano] "@ + body);
    lemma_starts("[Volcano] Built physical operator tree"@, rest);
    lemma_stripped(body);
    lemma_not_before(msg);
    assert("  \x1b[1;34m[PIPELINE]\x1b[0m   "@ + body
        =~= "  \x1b[1;34m[PIPELINE]\x1b[0m   Built physical operator tree"@ + rest);
}

/// The first place of a text is found, and what stands before it is all that stands there.
pub proof fn law_first_place_is_found(s: Seq<char>, p: Seq<char>)
    ensures
        match find_text(s, p) {
            Some(i) => text::occurs_at(s, p, i) && forall|j: int|
                0 <= j < i ==> !#[trigger] text::occurs_at(s, p, j),
            None => !text::contains(s, p),
        },
        match find_text(s, p) {
            Some(i) => before_text(s, p) == s.take(i),
            None => before_text(s, p) == s,
        },
    decreases s.len(),
{
    if p.is_prefix_of(s) {
        assert(s.subrange(0, p.len() as int) =~= p);
    } else {
        assert(!text::occurs_at(s, p, 0)) by {
            if text::occurs_at(s, p, 0) {
                assert(p =~= s.subrange(0, p.len() as int));
            }
        }
        if s.len() > 0 {
            let t = s.drop_first();
            law_first_place_is_found(t, p);
            assert forall|j: int| 0 < j implies #[trigger] text::occurs_at(s, p, j)
                == text::occurs_at(t, p, j - 1) by {
                if j + p.len() <= s.len() {
                    assert(s.subrange(j, j + p.len()) =~= t.subrange(j - 1, j - 1 + p.len()));
                }
            }
            match find_text(t, p) {
                Some(i) => {
                    assert(text::occurs_at(s, p, i + 1));
                    assert forall|j: int| 0 <= j < i + 1 implies !#[trigger] text::occurs_at(
                        s,
                        p,
                        j,
                    ) by {
                        if j > 0 {
                            assert(!text::occurs_at(t, p, j - 1));
                        }
                    }
                },
                None => {
                    assert forall|j: int| !#[trigger] text::occurs_at(s, p, j) by {
                        if j > 0 {
                            assert(!text::occurs_at(t, p, j - 1));
                        }
                    }
                },
            }
        } else {
            assert forall|j: int| !#[trigger] text::occurs_at(s, p, j) by {}
        }
    }
}

/// A record of a scan without an index names its table by what is quoted in it.
pub proof fn law_scans_name_their_table(a: Seq<char>, name: Seq<char>, b: Seq<char>)
    requires
        !a.contains('\''),
        !name.contains('\''),
    ensures
        quoted_name(a + seq!['\''] + name + seq!['\''] + b) == name,
        quoted_name(a) == "table"@,
{
    let s = a + seq!['\''] + name + seq!['\''] + b;
    let n = a.len() as int;
    text::lemma_find(s, '\'');
    text::lemma_find(a, '\'');
    assert(s[n] == '\'');
    assert(s.contains('\''));
    let k = text::find(s, '\'')->0;
    if k < n {
        assert(a[k] == s[k]);
    }
    assert(k == n);
    assert(s.skip(n + 1) =~= name + seq!['\''] + b);
    text::law_before_ends_at_the_first(name, '\'', b);
}

/// A changed row is shown with its place, which stands before the record's colon; that its old place
/// was marked is not shown; and any other record of an update is shown under its tag.
pub proof fn law_updates_name_the_place(place: Seq<char>, b: Seq<char>)
    requires
        !place.contains(':'),
        place.len() == 0 || place[0] != '[',
    ensures
        update_line("[Update] Validated row at "@ + place + seq![':'] + b) == Some(
            "  \x1b[1;33m[DML:UPDATE]\x1b[0m Row at "@ + text::trim(place)
                + " validated & updated (appended new version, old marked deleted)"@,
        ),
        update_line("[Update] Marked old slot"@ + b) is None,
{
    reveal_strlit("[Update] Validated row at ");
    reveal_strlit("[Update] Validated row at");
    reveal_strlit("[Update] Marked old slot");
    let lead = "[Update] Validated row at "@;
    let msg = lead + place + seq![':'] + b;
    assert(msg.subrange(0, 25) =~= "[Update] Validated row at"@);
    let front = lead + place;
    assert forall|i: int| 0 <= i < front.len() implies front[i] != ':' by {
        if i >= lead.len() {
            assert(front[i] == place[i - lead.len()]);
        }
    }
    assert(!front.contains(':'));
    text::law_before_ends_at_the_first(front, ':', b);
    text::law_stripping_takes_the_front_off(lead, place);
    lemma_no_marker(place, lead);
    let marked = "[Update] Marked old slot"@ + b;
    lemma_starts("[Update] Marked old slot"@, b);
    lemma_at(marked, "[Update] Validated row at"@, 9);
}

/// A deleted row is shown with its place, which stands between the word `slot` and what was updated.
pub proof fn law_deletions_name_the_place(place: Seq<char>, b: Seq<char>)
    requires
        !place.contains(','),
    ensures
        delete_line("[Delete] Soft-deleted slot "@ + place + ", updated"@ + b) == Some(
            "  \x1b[1;33m[DML:DELETE]\x1b[0m Soft-deleted row at "@ + text::trim(place)
                + ", updated index and visibility map"@,
        ),
{
    reveal_strlit("[Delete] Soft-deleted slot ");
    reveal_strlit("[Delete] Soft-deleted slot");
    reveal_strlit("slot ");
    reveal_strlit(", updated");
    let lead = "[Delete] Soft-deleted slot "@;
    let msg = lead + place + ", updated"@ + b;
    assert(msg.subrange(0, 26) =~= "[Delete] Soft-deleted slot"@);
    law_first_place_is_found(msg, "slot "@);
    assert(msg.subrange(22, 27) =~= "slot "@);
    assert(text::occurs_at(msg, "slot "@, 22));
    let at = find_text(msg, "slot "@)->0;
    assert(at == 22) by {
        if at < 22 {
            assert(msg.subrange(at, at + 5)[0] == 's');
            assert(msg.subrange(at, at + 5)[1] == 'l');
            assert(msg[at] == 's' && msg[at + 1] == 'l');
            assert(lead[at] == msg[at] && lead[at + 1] == msg[at + 1]);
        }
    }
    let rest = msg.skip(27);
    assert(rest =~= place + ", updated"@ + b);
    law_first_place_is_found(rest, ", updated"@);
    let n = place.len() as int;
    assert(rest.subrange(n, n + 9) =~= ", updated"@);
    assert(text::occurs_at(rest, ", updated"@, n));
    let k = find_text(rest, ", updated"@)->0;
    assert(k == n) by {
        if k < n {
            assert(rest.subrange(k, k + 9)[0] == ',');
            assert(place[k] == rest[k]);
        }
    }
    assert(rest.take(n) =~= place);
}

/// No record of a kind of its own goes on with this character behind its marker.
pub open spec fn unkeyed(c: char) -> bool {
    c != '[' && c != 'U' && c != 'I' && c != 'N' && c != 'S' && c != 'B' && c != 'V' && c != 'M'
}

/// A record of the planner's, of an update or of a deletion that is of no other kind is shown under
/// its tag, with all that it says.
pub proof fn law_other_records_are_shown_under_their_tag(rest: Seq<char>)
    requires
        rest.len() > 0,
        unkeyed(rest[0]),
    ensures
        volcano_line("[Volcano] "@ + rest) == Some("  \x1b[1;34m[PLANNER]\x1b[0m    "@ + rest),
        update_line("[Update] "@ + rest) == Some("  \x1b[1;33m[DML:UPDATE]\x1b[0m "@ + rest),
        delete_line("[Delete] "@ + rest) == Some("  \x1b[1;33m[DML:DELETE]\x1b[0m "@ + rest),
{
    lemma_planner(rest);
    lemma_other_changes(rest);
}

proof fn lemma_planner(rest: Seq<char>)
    requires
        rest.len() > 0,
        unkeyed(rest[0]),
    ensures
        volcano_line("[Volcano] "@ + rest) == Some("  \x1b[1;34m[PLANNER]\x1b[0m    "@ + rest),
{
    reveal_strlit("[Volcano] ");
    reveal_strlit("[Volcano] Using HashJoin");
    reveal_strlit("[Volcano] Using IndexNestedLoopJoin");
    reveal_strlit("[Volcano] Index-accelerated scan:");
    reveal_strlit("[Volcano] Using index-accelerated scan");
    reveal_strlit("[Volcano] Named index");
    reveal_strlit("[Volcano] No index file found for table");
    reveal_strlit("[Volcano] Sort has limit");
    reveal_strlit("[Volcano] Built physical operator tree");
    let msg = "[Volcano] "@ + rest;
    assert(msg[10] == rest[0]);
    lemma_at(msg, "[Volcano] Using HashJoin"@, 10);
    lemma_at(msg, "[Volcano] Using IndexNestedLoopJoin"@, 10);
    lemma_at(msg, "[Volcano] Index-accelerated scan:"@, 10);
    lemma_at(msg, "[Volcano] Using index-accelerated scan"@, 10);
    lemma_at(msg, "[Volcano] Named index"@, 10);
    lemma_at(msg, "[Volcano] No index file found for table"@, 10);
    lemma_at(msg, "[Volcano] Sort has limit"@, 10);
    lemma_at(msg, "[Volcano] Built physical operator tree"@, 10);
    lemma_stripped(rest);
}

proof fn lemma_other_changes(rest: Seq<char>)
    requires
        rest.len() > 0,
        unkeyed(rest[0]),
    ensures
        update_line("[Update] "@ + rest) == Some("  \x1b[1;33m[DML:UPDATE]\x1b[0m "@ + rest),
        delete_line("[Delete] "@ + rest) == Some("  \x1b[1;33m[DML:DELETE]\x1b[0m "@ + rest),
{
    reveal_strlit("[Update] ");
    reveal_strlit("[Delete] ");
    reveal_strlit("[Update] Validated row at");
    reveal_strlit("[Update] Marked old slot");
    reveal_strlit("[Delete] Soft-deleted slot");
    let u = "[Update] "@ + rest;
    let d = "[Delete] "@ + rest;
    assert(u[9] == rest[0] && d[9] == rest[0]);
    lemma_at(u, "[Update] Validated row at"@, 9);
    lemma_at(u, "[Update] Marked old slot"@, 9);
    lemma_at(d, "[Delete] Soft-deleted slot"@, 9);
    text::law_stripping_takes_the_front_off("[Update] "@, rest);
    text::law_stripping_takes_the_front_off("[Delete] "@, rest);
    lemma_no_marker(rest, "[Update] "@);
    lemma_no_marker(rest, "[Delete] "@);
}

/// A scan without an index is shown with the table that it is of.
pub proof fn law_scans_without_index_are_shown(a: Seq<char>, name: Seq<char>, b: Seq<char>)
    requires
        !a.contains('\''),
        !name.contains('\''),
    ensures
        volcano_line(
            "[Volcano] No index file found for table"@ + a + seq!['\''] + name + seq!['\''] + b,
        ) == Some(
            "  \x1b[1;36m[SCAN]\x1b[0m       Table '"@ + name
                + "' has no index, using SeqScan"@,
        ),
{
    reveal_strlit("[Volcano] No index file found for table");
    let lead = "[Volcano] No index file found for table"@;
    let front = lead + a;
    let msg = lead + a + seq!['\''] + name + seq!['\''] + b;
    assert forall|i: int| 0 <= i < front.len() implies front[i] != '\'' by {
        if i >= lead.len() {
            assert(front[i] == a[i - lead.len()]);
        }
    }
    assert(!front.contains('\''));
    law_scans_name_their_table(front, name, b);
    assert(msg.subrange(0, lead.len() as int) =~= lead);
    assert(msg[10] == 'N' && msg[11] == 'o');
    lemma_not_other_scans(msg);
}

proof fn lemma_not_other_scans(msg: Seq<char>)
    requires
        msg.len() > 11,
        msg[10] == 'N',
        msg[11] == 'o',
    ensures
        !"[Volcano] Using HashJoin"@.is_prefix_of(msg),
        !"[Volcano] Using IndexNestedLoopJoin"@.is_prefix_of(msg),
        !"[Volcano] Index-accelerated scan:"@.is_prefix_of(msg),
        !"[Volcano] Using index-accelerated scan"@.is_prefix_of(msg),
        !"[Volcano] Named index"@.is_prefix_of(msg),
{
    reveal_strlit("[Volcano] Using HashJoin");
    reveal_strlit("[Volcano] Using IndexNestedLoopJoin");
    reveal_strlit("[Volcano] Index-accelerated scan:");
    reveal_strlit("[Volcano] Using index-accelerated scan");
    reveal_strlit("[Volcano] Named index");
    lemma_at(msg, "[Volcano] Using HashJoin"@, 10);
    lemma_at(msg, "[Volcano] Using IndexNestedLoopJoin"@, 10);
    lemma_at(msg, "[Volcano] Index-accelerated scan:"@, 10);
    lemma_at(msg, "[Volcano] Using index-accelerated scan"@, 10);
    lemma_at(msg, "[Volcano] Named index"@, 11);
}

} // verus!
