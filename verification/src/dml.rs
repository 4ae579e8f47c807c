//! `INSERT`, `UPDATE` and `DELETE`.

use vstd::prelude::*;
use storage_manager::executor::SetAssignment;
use crate::ast::{ExprNode, PredicateNode, SelectExpr, SelectPlan, TableRef};
use crate::catalog;
use crate::catalog::{Catalog, Column, ColumnView, DatabaseView, Table};
use crate::copy::InsertOutcome;
use crate::datatype;
use crate::datatype::{show_value, value_has_text};
use crate::effects;
use crate::effects::{Effect, EffectView};
use crate::render;
use crate::render::{expr_to_debug_string, value_expr_to_string};
use crate::session;
use crate::session::QueryOutcome;
use crate::text;

verus! {

/// A value to insert, with its own text for the case that the rendering rests on it.
#[derive(Debug, PartialEq)]
pub struct InsertValue {
    pub expr: ExprNode,
    pub fallback: String,
}

#[derive(Debug, PartialEq)]
pub struct InsertPlan {
    pub table: String,
    pub columns: Vec<String>,
    pub values: Vec<Vec<InsertValue>>,
    pub source_select: Option<SelectPlan>,
}

#[derive(Debug, PartialEq)]
pub struct Assignment {
    pub column: String,
    pub value: ExprNode,
}

#[derive(Debug, PartialEq)]
pub struct UpdatePlan {
    pub table: String,
    pub assignments: Vec<Assignment>,
    pub selection: Option<PredicateNode>,
}

#[derive(Debug, PartialEq)]
pub struct DeletePlan {
    pub table: String,
    pub selection: Option<PredicateNode>,
}

/// The position of the first of `names` that is `name`, up to ASCII letter case.
pub open spec fn name_index(names: Seq<Seq<char>>, name: Seq<char>) -> Option<int>
    decreases names.len(),
{
    if names.len() == 0 {
        None
    } else if text::same_fold(names[0], name) {
        Some(0)
    } else {
        match name_index(names.drop_first(), name) {
            Some(i) => Some(i + 1),
            None => None,
        }
    }
}

/// The text of a value to insert.
pub open spec fn given_text(v: InsertValue) -> Seq<char> {
    render::insert_text(v.expr, v.fallback@)
}

/// What a row that names its columns gives for a column of the table: the value in the place of
/// the column's name; failing the name, the column's default; failing either, `NULL`.
pub open spec fn field_text(c: ColumnView, names: Seq<Seq<char>>, row: Seq<InsertValue>) -> Seq<
    char,
> {
    match name_index(names, c.name) {
        Some(p) => if p < row.len() {
            given_text(row[p])
        } else {
            "NULL"@
        },
        None => match c.default {
            Some(v) => datatype::value_text(v),
            None => "NULL"@,
        },
    }
}

/// The literals of a row to insert into a table with these columns, or into one that the catalog
/// does not know.
pub open spec fn row_literals(
    columns: Option<Seq<ColumnView>>,
    names: Seq<Seq<char>>,
    row: Seq<InsertValue>,
) -> Seq<Seq<char>> {
    if names.len() > 0 && columns is Some {
        columns->0.map_values(|c: ColumnView| field_text(c, names, row))
    } else {
        row.map_values(|v: InsertValue| given_text(v))
    }
}

/// The table's columns, where the catalog knows the table.
pub open spec fn known_columns(
    c: Map<Seq<char>, DatabaseView>,
    db: Seq<char>,
    table: Seq<char>,
) -> Option<Seq<ColumnView>> {
    if catalog::has_table(c, db, table) {
        Some(c[db].tables[table])
    } else {
        None
    }
}

/// What `INSERT .. VALUES` does: one row after the other.
pub open spec fn insert_rows(
    c: Map<Seq<char>, DatabaseView>,
    db: Seq<char>,
    table: Seq<char>,
    names: Seq<Seq<char>>,
    rows: Seq<Vec<InsertValue>>,
) -> Seq<EffectView> {
    rows.map_values(
        |row: Vec<InsertValue>|
            EffectView::InsertRow {
                db,
                table,
                values: row_literals(known_columns(c, db, table), names, row@),
            },
    )
}

/// The next step of an `INSERT`.
#[derive(Debug, PartialEq)]
pub enum InsertStep {
    /// Carry these effects out.
    Effects(Vec<Effect>),
    /// Plan and run the statement in this database, and report with [`insert_query_line`].
    FromQuery { db: String },
}

fn name_position(names: &Vec<String>, name: &str) -> (r: Option<usize>)
    ensures
        match r {
            Some(i) => name_index(text::views(names@), name@) == Some(i as int),
            None => name_index(text::views(names@), name@) is None,
        },
{
    let ghost all = text::views(names@);
    let mut i: usize = 0;
    assert(all.skip(0) =~= all);
    while i < names.len()
        invariant
            i <= names.len(),
            all == text::views(names@),
            name_index(all, name@) == match name_index(all.skip(i as int), name@) {
                Some(k) => Some(k + i),
                None => None::<int>,
            },
        decreases names.len() - i,
    {
        assert(all.skip(i as int)[0] == names@[i as int]@);
        assert(all.skip(i as int).drop_first() =~= all.skip(i + 1));
        if text::same_ignoring_case(names[i].as_str(), name) {
            return Some(i);
        }
        i = i + 1;
    }
    None
}

fn value_text(v: &InsertValue) -> (r: String)
    ensures
        r@ == given_text(*v),
{
    value_expr_to_string(&v.expr, v.fallback.as_str())
}

/// The column's default, where a row that names these columns takes it, has a text.
pub open spec fn default_has_text(c: ColumnView, names: Seq<Seq<char>>) -> bool {
    name_index(names, c.name) is None && c.default is Some ==> datatype::has_text(c.default->0)
}

/// Every default that a row with these column names takes has a text.
pub open spec fn defaults_have_text(
    columns: Option<Seq<ColumnView>>,
    names: Seq<Seq<char>>,
) -> bool {
    match columns {
        Some(cs) => names.len() > 0 ==> all_default_texts(cs, names),
        None => true,
    }
}

/// Every default among these columns that a row with these column names takes has a text.
pub open spec fn all_default_texts(columns: Seq<ColumnView>, names: Seq<Seq<char>>) -> bool {
    forall|i: int| 0 <= i < columns.len() ==> default_has_text(#[trigger] columns[i], names)
}

/// Whether every default that a row with these column names takes has a text.
#[verifier::loop_isolation(false)]
pub fn defaults_are_shown(table: Option<&Table>, names: &Vec<String>) -> (r: bool)
    ensures
        r == defaults_have_text(
            match table {
                Some(t) => Some(t@),
                None => None,
            },
            text::views(names@),
        ),
{
    if names.len() > 0 {
        if let Some(t) = table {
            let ghost all = text::views(names@);
            assert(all.len() == names@.len());
            let mut i: usize = 0;
            while i < t.columns.len()
                invariant
                    i <= t.columns.len(),
                    all == text::views(names@),
                    forall|j: int| 0 <= j < i ==> default_has_text(#[trigger] t@[j], all),
                decreases t.columns.len() - i,
            {
                let c = &t.columns[i];
                assert(t@[i as int] == c@);
                if let Some(v) = &c.constraints.default {
                    if name_position(names, c.name.as_str()).is_none() && !value_has_text(v) {
                        assert(!default_has_text(t@[i as int], all));
                        return false;
                    }
                }
                i = i + 1;
            }
        }
    }
    true
}

fn field(c: &Column, names: &Vec<String>, row: &Vec<InsertValue>) -> (r: String)
    requires
        default_has_text(c@, text::views(names@)),
    ensures
        r@ == field_text(c@, text::views(names@), row@),
{
    match name_position(names, c.name.as_str()) {
        Some(p) => if p < row.len() {
            value_text(&row[p])
        } else {
            "NULL".to_owned()
        },
        None => match &c.constraints.default {
            Some(v) => show_value(v),
            None => "NULL".to_owned(),
        },
    }
}

/// The literals of a row to insert. The defaults that it takes must have texts.
pub fn row_to_literals(table: Option<&Table>, names: &Vec<String>, row: &Vec<InsertValue>) -> (r:
    Vec<String>)
    requires
        defaults_have_text(
            match table {
                Some(t) => Some(t@),
                None => None,
            },
            text::views(names@),
        ),
    ensures
        text::views(r@) == row_literals(
            match table {
                Some(t) => Some(t@),
                None => None,
            },
            text::views(names@),
            row@,
        ),
{
    let mut r: Vec<String> = Vec::new();
    if names.len() > 0 {
        if let Some(t) = table {
            let ghost names_view = text::views(names@);
            assert(names_view.len() == names@.len());
            let ghost all = t@.map_values(|c: ColumnView| field_text(c, names_view, row@));
            let mut i: usize = 0;
            while i < t.columns.len()
                invariant
                    i <= t.columns.len(),
                    names_view == text::views(names@),
                    all_default_texts(t@, names_view),
                    all == t@.map_values(|c: ColumnView| field_text(c, names_view, row@)),
                    text::views(r@) == all.take(i as int),
                decreases t.columns.len() - i,
            {
                let ghost done = text::views(r@);
                assert(t@[i as int] == t.columns@[i as int]@);
                r.push(field(&t.columns[i], names, row));
                assert(text::views(r@) =~= done.push(all[i as int]));
                i = i + 1;
            }
            assert(all.take(i as int) =~= all);
            return r;
        }
    }
    let ghost all = row@.map_values(|v: InsertValue| given_text(v));
    let mut i: usize = 0;
    while i < row.len()
        invariant
            i <= row.len(),
            all == row@.map_values(|v: InsertValue| given_text(v)),
            text::views(r@) == all.take(i as int),
        decreases row.len() - i,
    {
        let ghost done = text::views(r@);
        r.push(value_text(&row[i]));
        assert(text::views(r@) =~= done.push(all[i as int]));
        i = i + 1;
    }
    assert(all.take(i as int) =~= all);
    r
}

/// The literals of a row to insert; none where a default that it takes has no text.
pub fn try_row_to_literals(
    table: Option<&Table>,
    names: &Vec<String>,
    row: &Vec<InsertValue>,
) -> (r: Option<Vec<String>>)
    ensures
        r is Some <==> defaults_have_text(
            match table {
                Some(t) => Some(t@),
                None => None,
            },
            text::views(names@),
        ),
        r is Some ==> text::views(r->0@) == row_literals(
            match table {
                Some(t) => Some(t@),
                None => None,
            },
            text::views(names@),
            row@,
        ),
{
    if defaults_are_shown(table, names) {
        Some(row_to_literals(table, names, row))
    } else {
        None
    }
}

/// The next step of an `INSERT`, given the selected database.
pub open spec fn insert_step(
    r: InsertStep,
    c: Map<Seq<char>, DatabaseView>,
    current_db: Option<String>,
    ins: InsertPlan,
) -> bool {
    match current_db {
        None => r matches InsertStep::Effects(e) && effects::shown(e@) == seq![
            EffectView::Print { text: session::no_database_line() },
        ],
        Some(db) => if ins.source_select is Some {
            r matches InsertStep::FromQuery { db: d } && d@ == db@
        } else {
            r matches InsertStep::Effects(e) && effects::shown(e@) == insert_rows(
                c,
                db@,
                ins.table@,
                text::views(ins.columns@),
                ins.values@,
            )
        },
    }
}

/// The rows of an `INSERT` take no default that has no text.
pub open spec fn insert_has_texts(
    c: Map<Seq<char>, DatabaseView>,
    db: Seq<char>,
    ins: InsertPlan,
) -> bool {
    ins.source_select is None && ins.values@.len() > 0 ==> defaults_have_text(
        known_columns(c, db, ins.table@),
        text::views(ins.columns@),
    )
}

/// Plans `INSERT`. The defaults that its rows take must have texts.
pub fn handle_insert(catalog: &Catalog, current_db: &Option<String>, ins: &InsertPlan) -> (r:
    InsertStep)
    requires
        current_db matches Some(db) ==> insert_has_texts(catalog@, db@, *ins),
    ensures
        insert_step(r, catalog@, *current_db, *ins),
{
    let db = match current_db {
        Some(db) => db,
        None => {
            return InsertStep::Effects(session::no_database());
        },
    };
    if ins.source_select.is_some() {
        return InsertStep::FromQuery { db: db.clone() };
    }
    let table = catalog.table(db.as_str(), ins.table.as_str());
    let ghost all = insert_rows(
        catalog@,
        db@,
        ins.table@,
        text::views(ins.columns@),
        ins.values@,
    );
    let mut out: Vec<Effect> = Vec::new();
    let mut i: usize = 0;
    assert(effects::shown(out@) =~= all.take(0));
    while i < ins.values.len()
        invariant
            i <= ins.values.len(),
            all == insert_rows(
                catalog@,
                db@,
                ins.table@,
                text::views(ins.columns@),
                ins.values@,
            ),
            match table {
                Some(t) => known_columns(catalog@, db@, ins.table@) == Some(t@),
                None => known_columns(catalog@, db@, ins.table@) is None,
            },
            insert_has_texts(catalog@, db@, *ins),
            ins.source_select is None,
            effects::shown(out@) == all.take(i as int),
        decreases ins.values.len() - i,
    {
        let ghost done = effects::shown(out@);
        let values = row_to_literals(table, &ins.columns, &ins.values[i]);
        let effect = Effect::InsertRow { db: db.clone(), table: ins.table.clone(), values };
        let ghost e = effect@;
        out.push(effect);
        assert(e == all[i as int]);
        assert(effects::shown(out@) =~= done.push(e));
        i = i + 1;
    }
    assert(all.take(i as int) =~= all);
    InsertStep::Effects(out)
}

/// Plans `INSERT`; no plan where a default that its rows take has no text.
pub fn try_handle_insert(catalog: &Catalog, current_db: &Option<String>, ins: &InsertPlan) -> (r:
    Option<InsertStep>)
    ensures
        r is None <==> (*current_db is Some && !insert_has_texts(
            catalog@,
            (*current_db)->0@,
            *ins,
        )),
        r is Some ==> insert_step(r->0, catalog@, *current_db, *ins),
{
    if let Some(db) = current_db {
        if ins.source_select.is_none() && ins.values.len() > 0 {
            let table = catalog.table(db.as_str(), ins.table.as_str());
            if !defaults_are_shown(table, &ins.columns) {
                return None;
            }
        }
    }
    Some(handle_insert(catalog, current_db, ins))
}

/// The line that reports one inserted row.
pub open spec fn insert_report(o: InsertOutcome) -> Seq<char> {
    match o {
        InsertOutcome::Inserted => "1 row inserted."@,
        InsertOutcome::Rejected => "Insert failed."@,
        InsertOutcome::Failed(e) => "Insert error: "@ + e@,
    }
}

pub fn insert_line(o: &InsertOutcome) -> (r: String)
    ensures
        r@ == insert_report(*o),
{
    match o {
        InsertOutcome::Inserted => "1 row inserted.".to_owned(),
        InsertOutcome::Rejected => "Insert failed.".to_owned(),
        InsertOutcome::Failed(e) => text::cat2("Insert error: ", e.as_str()),
    }
}

/// The line that reports an `INSERT .. SELECT`.
pub fn insert_query_line(o: &QueryOutcome) -> (r: String)
    ensures
        r@ == match *o {
            QueryOutcome::Rows(n) => text::decimal(n as nat) + " row(s) inserted.\n"@,
            QueryOutcome::ExecutionFailed(e) => "Insert execution error: "@ + e@,
            QueryOutcome::PlanFailed(e) => "Insert planning error: "@ + e@,
        },
{
    match o {
        QueryOutcome::Rows(n) => {
            let count = text::decimal_text(*n as u128);
            text::cat2(count.as_str(), " row(s) inserted.\n")
        },
        QueryOutcome::ExecutionFailed(e) => text::cat2("Insert execution error: ", e.as_str()),
        QueryOutcome::PlanFailed(e) => text::cat2("Insert planning error: ", e.as_str()),
    }
}

/// `plan` selects whole rows of `table`, those that `selection` lets through.
pub open spec fn selects_rows(
    plan: SelectPlan,
    table: Seq<char>,
    selection: Option<PredicateNode>,
) -> bool {
    &&& plan.ctes@.len() == 0
    &&& plan.projections@.len() == 1
    &&& plan.projections@[0] is Wildcard
    &&& plan.from@.len() == 1
    &&& plan.from@[0].name@ == table
    &&& plan.from@[0].alias is None
    &&& plan.joins@.len() == 0
    &&& plan.selection == selection
    &&& plan.group_by@.len() == 0
    &&& plan.having is None
    &&& plan.order_by@.len() == 0
    &&& plan.limit is None
    &&& !plan.distinct
}

/// The query that finds the rows to change.
pub fn row_selection(table: &str, selection: Option<PredicateNode>) -> (r: SelectPlan)
    ensures
        selects_rows(r, table@, selection),
{
    let mut projections: Vec<SelectExpr> = Vec::new();
    projections.push(SelectExpr::Wildcard);
    let mut from: Vec<TableRef> = Vec::new();
    from.push(TableRef { name: table.to_owned(), alias: None });
    SelectPlan {
        ctes: Vec::new(),
        projections,
        from,
        joins: Vec::new(),
        selection,
        group_by: Vec::new(),
        having: None,
        order_by: Vec::new(),
        limit: None,
        distinct: false,
    }
}

/// The next step of an `UPDATE` or a `DELETE`.
#[derive(Debug, PartialEq)]
pub enum RowStep {
    /// Print this line; the statement is over.
    Report(String),
    /// Run this query in this database for the rows to change.
    Select { db: String, query: SelectPlan },
}

/// The first step of a statement that changes the rows of `table` that `selection` lets through.
pub open spec fn first_step(
    r: RowStep,
    current_db: Option<String>,
    table: Seq<char>,
    selection: Option<PredicateNode>,
) -> bool {
    match current_db {
        None => r matches RowStep::Report(line) && line@ == session::no_database_line(),
        Some(db) => r matches RowStep::Select { db: d, query } && d@ == db@ && selects_rows(
            query,
            table,
            selection,
        ),
    }
}

/// Plans `UPDATE`: the rows are found by a query.
pub fn handle_update(
    current_db: &Option<String>,
    table: &str,
    selection: Option<PredicateNode>,
) -> (r: RowStep)
    ensures
        first_step(r, *current_db, table@, selection),
{
    match current_db {
        None => RowStep::Report(session::no_database_text()),
        Some(db) => RowStep::Select { db: db.clone(), query: row_selection(table, selection) },
    }
}

/// Plans `DELETE`: the rows are found by a query.
pub fn handle_delete(
    current_db: &Option<String>,
    table: &str,
    selection: Option<PredicateNode>,
) -> (r: RowStep)
    ensures
        first_step(r, *current_db, table@, selection),
{
    match current_db {
        None => RowStep::Report(session::no_database_text()),
        Some(db) => RowStep::Select { db: db.clone(), query: row_selection(table, selection) },
    }
}

/// What the query for the rows to change gave: for each row, its page and slot where it has them.
#[derive(Debug, PartialEq)]
pub enum FoundRows {
    PlanFailed(String),
    ExecutionFailed(String),
    Rows(Vec<(Option<u32>, Option<u32>)>),
}

/// A row has a place in the heap.
pub open spec fn is_placed(p: (Option<u32>, Option<u32>)) -> bool {
    p.0 is Some && p.1 is Some
}

/// The places of rows that all have one.
pub open spec fn places(rows: Seq<(Option<u32>, Option<u32>)>) -> Seq<(u32, u32)> {
    rows.map_values(|p: (Option<u32>, Option<u32>)| (p.0->0, p.1->0))
}

pub open spec fn all_placed(rows: Seq<(Option<u32>, Option<u32>)>) -> bool {
    forall|i: int| 0 <= i < rows.len() ==> is_placed(#[trigger] rows[i])
}

/// The places of the rows to change, or the line that reports why there are none. `verb` names
/// the statement.
pub open spec fn located(found: FoundRows, verb: Seq<char>) -> Result<Seq<(u32, u32)>, Seq<char>> {
    match found {
        FoundRows::PlanFailed(e) => Err(verb + " failed: "@ + "Plan error: "@ + e@),
        FoundRows::ExecutionFailed(e) => Err(verb + " failed: "@ + e@),
        FoundRows::Rows(rows) => if all_placed(rows@) {
            Ok(places(rows@))
        } else {
            Err(verb + " failed: engine returned rows without heap locations"@)
        },
    }
}

/// The places of the rows to change.
pub fn locate(found: &FoundRows, verb: &str) -> (r: Result<Vec<(u32, u32)>, String>)
    ensures
        match r {
            Ok(p) => located(*found, verb@) == Ok::<Seq<(u32, u32)>, Seq<char>>(p@),
            Err(line) => located(*found, verb@) == Err::<Seq<(u32, u32)>, Seq<char>>(line@),
        },
{
    match found {
        FoundRows::PlanFailed(e) => Err(text::cat4(verb, " failed: ", "Plan error: ", e.as_str())),
        FoundRows::ExecutionFailed(e) => Err(text::cat3(verb, " failed: ", e.as_str())),
        FoundRows::Rows(rows) => {
            let mut out: Vec<(u32, u32)> = Vec::new();
            let mut i: usize = 0;
            while i < rows.len()
                invariant
                    i <= rows.len(),
                    *found == FoundRows::Rows(*rows),
                    forall|j: int| 0 <= j < i ==> is_placed(#[trigger] rows@[j]),
                    out@ == places(rows@).take(i as int),
                decreases rows.len() - i,
            {
                match rows[i] {
                    (Some(page), Some(slot)) => {
                        out.push((page, slot));
                    },
                    _ => {
                        assert(!is_placed(rows@[i as int]));
                        return Err(
                            text::cat2(
                                verb,
                                " failed: engine returned rows without heap locations",
                            ),
                        );
                    },
                }
                assert(is_placed(rows@[i as int]));
                i = i + 1;
            }
            assert(out@ =~= places(rows@));
            Ok(out)
        },
    }
}

/// The engine's parsed assignment: `storage_manager::executor::SetAssignment`.
#[verifier::external_type_specification]
#[verifier::external_body]
pub struct ExSetAssignment(storage_manager::executor::SetAssignment);

/// What `storage_manager::executor::parse_set_clause` makes of a `SET` clause.
pub uninterp spec fn parsed_set_clause(clause: Seq<char>) -> Option<Seq<SetAssignment>>;

/// Parses a `SET` clause: `storage_manager::executor::parse_set_clause`. The result depends on
/// the clause alone.
#[verifier::external_body]
pub(crate) fn parse_set(clause: &str) -> (r: Option<Vec<SetAssignment>>)
    ensures
        match r {
            Some(list) => parsed_set_clause(clause@) == Some(list@),
            None => parsed_set_clause(clause@) is None,
        },
{
    storage_manager::executor::parse_set_clause(clause)
}

/// The text of one assignment.
pub open spec fn assignment_text(a: Assignment) -> Seq<char> {
    a.column@ + " = "@ + render::rendered(a.value)
}

/// The text of a `SET` clause.
pub open spec fn set_clause(list: Seq<Assignment>) -> Seq<char> {
    text::joined(list.map_values(|a: Assignment| assignment_text(a)), ", "@)
}

/// The text of a `SET` clause.
pub fn set_clause_text(list: &Vec<Assignment>) -> (r: String)
    ensures
        r@ == set_clause(list@),
{
    let ghost all = list@.map_values(|a: Assignment| assignment_text(a));
    let mut parts: Vec<String> = Vec::new();
    let mut i: usize = 0;
    while i < list.len()
        invariant
            i <= list.len(),
            all == list@.map_values(|a: Assignment| assignment_text(a)),
            text::views(parts@) == all.take(i as int),
        decreases list.len() - i,
    {
        let ghost done = text::views(parts@);
        let value = expr_to_debug_string(&list[i].value);
        parts.push(text::cat3(list[i].column.as_str(), " = ", value.as_str()));
        assert(text::views(parts@) =~= done.push(all[i as int]));
        i = i + 1;
    }
    assert(text::views(parts@) =~= all);
    text::join(&parts, ", ")
}

/// The second step of an `UPDATE`.
#[derive(Debug)]
pub enum UpdateStep {
    /// Print this line; the statement is over.
    Report(String),
    /// Change the rows in these places, and report with [`update_line`].
    Apply { pointers: Vec<(u32, u32)>, assignments: Vec<SetAssignment> },
}

/// What an `UPDATE` does with the rows that were found and the parsed clause.
pub open spec fn update_step(
    r: UpdateStep,
    found: FoundRows,
    parsed: Option<Seq<SetAssignment>>,
) -> bool {
    match located(found, "Update"@) {
        Err(line) => r matches UpdateStep::Report(text) && text@ == line,
        Ok(p) => match parsed {
            None => r matches UpdateStep::Report(text) && text@ == "Could not parse SET clause."@,
            Some(list) => r matches UpdateStep::Apply { pointers, assignments } && pointers@ == p
                && assignments@ == list,
        },
    }
}

/// The second step of an `UPDATE`, given the parsed clause.
pub fn update_rows(found: &FoundRows, parsed: Option<Vec<SetAssignment>>) -> (r: UpdateStep)
    ensures
        update_step(
            r,
            *found,
            match parsed {
                Some(list) => Some(list@),
                None => None,
            },
        ),
{
    match locate(found, "Update") {
        Err(line) => UpdateStep::Report(line),
        Ok(pointers) => match parsed {
            None => UpdateStep::Report("Could not parse SET clause.".to_owned()),
            Some(assignments) => UpdateStep::Apply { pointers, assignments },
        },
    }
}

/// The second step of an `UPDATE`.
pub fn continue_update(found: &FoundRows, assignments: &Vec<Assignment>) -> (r: UpdateStep)
    ensures
        update_step(r, *found, parsed_set_clause(set_clause(assignments@))),
{
    let clause = set_clause_text(assignments);
    update_rows(found, parse_set(clause.as_str()))
}

/// What became of changed rows.
#[derive(Debug, PartialEq)]
pub enum ChangeOutcome {
    Changed(usize),
    Failed(String),
}

/// The line that reports an `UPDATE`.
pub fn update_line(o: &ChangeOutcome) -> (r: String)
    ensures
        r@ == match *o {
            ChangeOutcome::Changed(n) => "\nUpdated "@ + text::decimal(n as nat) + " row(s)."@,
            ChangeOutcome::Failed(e) => "Update failed: "@ + e@,
        },
{
    match o {
        ChangeOutcome::Changed(n) => {
            let count = text::decimal_text(*n as u128);
            text::cat3("\nUpdated ", count.as_str(), " row(s).")
        },
        ChangeOutcome::Failed(e) => text::cat2("Update failed: ", e.as_str()),
    }
}

/// The line that reports a `DELETE`.
pub fn delete_line(o: &ChangeOutcome) -> (r: String)
    ensures
        r@ == match *o {
            ChangeOutcome::Changed(n) => "\nDeleted "@ + text::decimal(n as nat) + " row(s)."@,
            ChangeOutcome::Failed(e) => "Delete failed: "@ + e@,
        },
{
    match o {
        ChangeOutcome::Changed(n) => {
            let count = text::decimal_text(*n as u128);
            text::cat3("\nDeleted ", count.as_str(), " row(s).")
        },
        ChangeOutcome::Failed(e) => text::cat2("Delete failed: ", e.as_str()),
    }
}

/// A row that names its columns gets one literal for every column of the table, in the table's
/// order.
pub proof fn law_named_insert_fits_the_table(
    columns: Seq<ColumnView>,
    names: Seq<Seq<char>>,
    row: Seq<InsertValue>,
)
    requires
        names.len() > 0,
    ensures
        row_literals(Some(columns), names, row).len() == columns.len(),
        forall|i: int|
            0 <= i < columns.len() ==> #[trigger] row_literals(Some(columns), names, row)[i]
                == field_text(columns[i], names, row),
{
}

/// A column that a row does not name gets its default; without one, `NULL`.
pub proof fn law_unnamed_column_gets_its_default(
    c: ColumnView,
    names: Seq<Seq<char>>,
    row: Seq<InsertValue>,
)
    requires
        name_index(names, c.name) is None,
    ensures
        field_text(c, names, row) == match c.default {
            Some(v) => datatype::value_text(v),
            None => "NULL"@,
        },
{
}

/// A change is made to every row that was found, or to none.
pub proof fn law_every_found_row_is_changed(
    rows: Vec<(Option<u32>, Option<u32>)>,
    verb: Seq<char>,
)
    requires
        located(FoundRows::Rows(rows), verb) is Ok,
    ensures
        located(FoundRows::Rows(rows), verb)->Ok_0.len() == rows@.len(),
        forall|i: int|
            0 <= i < rows@.len() ==> rows@[i] == (
                Some((#[trigger] located(FoundRows::Rows(rows), verb)->Ok_0[i]).0),
                Some(located(FoundRows::Rows(rows), verb)->Ok_0[i].1),
            ),
{
    assert forall|i: int| 0 <= i < rows@.len() implies rows@[i] == (
        Some((#[trigger] located(FoundRows::Rows(rows), verb)->Ok_0[i]).0),
        Some(located(FoundRows::Rows(rows), verb)->Ok_0[i].1),
    ) by {
        assert(is_placed(rows@[i]));
    }
}

/// `p` is where `names` first gives `name`, up to ASCII letter case.
pub open spec fn first_named(names: Seq<Seq<char>>, name: Seq<char>, p: int) -> bool {
    &&& 0 <= p < names.len()
    &&& text::ascii_lower(names[p]) == text::ascii_lower(name)
    &&& forall|q: int|
        0 <= q < p ==> text::ascii_lower(#[trigger] names[q]) != text::ascii_lower(name)
}

/// None of `names` is `name`, up to ASCII letter case.
pub open spec fn not_named(names: Seq<Seq<char>>, name: Seq<char>) -> bool {
    forall|q: int|
        0 <= q < names.len() ==> text::ascii_lower(#[trigger] names[q]) != text::ascii_lower(name)
}

/// `name_index` is the least position with the name.
pub proof fn lemma_name_index(names: Seq<Seq<char>>, name: Seq<char>)
    ensures
        match name_index(names, name) {
            Some(p) => first_named(names, name, p),
            None => not_named(names, name),
        },
    decreases names.len(),
{
    if names.len() > 0 && !text::same_fold(names[0], name) {
        let rest = names.drop_first();
        lemma_name_index(rest, name);
        assert forall|q: int| 0 < q < names.len() implies #[trigger] names[q] == rest[q - 1] by {}
    }
}

/// `INSERT .. VALUES` that names its columns plans one inserted row for each row of values, in
/// order, and each has exactly one literal for every column of the table, in the table's order:
/// the value that stands where the column is first named; `NULL` where that value is missing; and
/// for a column that is not named its default, or `NULL` where it has none.
pub proof fn law_insert_puts_values_where_they_are_named(
    r: InsertStep,
    c: Map<Seq<char>, DatabaseView>,
    current_db: Option<String>,
    ins: InsertPlan,
    i: int,
    j: int,
)
    requires
        insert_step(r, c, current_db, ins),
        current_db is Some,
        ins.source_select is None,
        ins.columns@.len() > 0,
        c.contains_key(current_db->0@),
        c[current_db->0@].tables.contains_key(ins.table@),
        0 <= i < ins.values@.len(),
        0 <= j < c[current_db->0@].tables[ins.table@].len(),
    ensures
        r is Effects,
        r->Effects_0@.len() == ins.values@.len(),
        ({
            let names = text::views(ins.columns@);
            let columns = c[current_db->0@].tables[ins.table@];
            let row = ins.values@[i]@;
            let effect = r->Effects_0@[i];
            &&& effect is InsertRow
            &&& effect->InsertRow_db@ == current_db->0@
            &&& effect->InsertRow_table@ == ins.table@
            &&& effect->InsertRow_values@.len() == columns.len()
            &&& forall|p: int| #[trigger]
                first_named(names, columns[j].name, p) ==> effect->InsertRow_values@[j]@ == if p
                    < row.len() {
                    render::insert_text(row[p].expr, row[p].fallback@)
                } else {
                    "NULL"@
                }
            &&& not_named(names, columns[j].name) ==> effect->InsertRow_values@[j]@
                == match columns[j].default {
                Some(v) => datatype::value_text(v),
                None => "NULL"@,
            }
        }),
{
    let names = text::views(ins.columns@);
    let columns = c[current_db->0@].tables[ins.table@];
    let plan = effects::shown(r->Effects_0@);
    assert(names.len() == ins.columns@.len());
    assert(plan.len() == ins.values@.len());
    assert(plan[i] == r->Effects_0@[i]@);
    let literals = plan[i]->InsertRow_values;
    assert(literals == text::views(r->Effects_0@[i]->InsertRow_values@));
    lemma_name_index(names, columns[j].name);
    assert(literals[j] == field_text(columns[j], names, ins.values@[i]@));
}

/// A row that names no columns, or goes into a table that the catalog does not know, is planned
/// as it is written: one literal for each of its values, in their order.
pub proof fn law_insert_keeps_rows_as_written(
    r: InsertStep,
    c: Map<Seq<char>, DatabaseView>,
    current_db: Option<String>,
    ins: InsertPlan,
    i: int,
    j: int,
)
    requires
        insert_step(r, c, current_db, ins),
        current_db is Some,
        ins.source_select is None,
        ins.columns@.len() == 0 || !(c.contains_key(current_db->0@)
            && c[current_db->0@].tables.contains_key(ins.table@)),
        0 <= i < ins.values@.len(),
        0 <= j < ins.values@[i]@.len(),
    ensures
        r is Effects,
        r->Effects_0@.len() == ins.values@.len(),
        ({
            let row = ins.values@[i]@;
            let effect = r->Effects_0@[i];
            &&& effect is InsertRow
            &&& effect->InsertRow_db@ == current_db->0@
            &&& effect->InsertRow_table@ == ins.table@
            &&& effect->InsertRow_values@.len() == row.len()
            &&& effect->InsertRow_values@[j]@ == render::insert_text(row[j].expr, row[j].fallback@)
        }),
{
    let names = text::views(ins.columns@);
    let plan = effects::shown(r->Effects_0@);
    assert(names.len() == ins.columns@.len());
    assert(plan.len() == ins.values@.len());
    assert(plan[i] == r->Effects_0@[i]@);
    let literals = plan[i]->InsertRow_values;
    assert(literals == text::views(r->Effects_0@[i]->InsertRow_values@));
    assert(literals[j] == given_text(ins.values@[i]@[j]));
}

/// Without a selected database nothing is inserted: the one effect is a line that says so. And
/// the rows of an `INSERT .. SELECT` are left to the query, in the selected database.
pub proof fn law_insert_elsewhere(
    r: InsertStep,
    c: Map<Seq<char>, DatabaseView>,
    current_db: Option<String>,
    ins: InsertPlan,
)
    requires
        insert_step(r, c, current_db, ins),
    ensures
        current_db is None ==> r is Effects && r->Effects_0@.len() == 1 && (r->Effects_0@[0] is Print
            && r->Effects_0@[0]->Print_text@
            == "No database selected. Use 'USE <database>' first."@),
        current_db is Some && ins.source_select is Some ==> r is FromQuery && r->FromQuery_db@
            == current_db->0@,
{
    if current_db is None {
        let plan = effects::shown(r->Effects_0@);
        assert(plan.len() == r->Effects_0@.len());
        assert(plan[0] == r->Effects_0@[0]@);
    }
}

/// A `SET` clause holds every assignment, in their order, with commas between them: the column,
/// `=` and the text of the expression.
pub proof fn law_set_clause_has_every_assignment(list: Seq<Assignment>, texts: Seq<Seq<char>>)
    requires
        texts.len() == list.len(),
        forall|i: int|
            0 <= i < list.len() ==> #[trigger] texts[i] == list[i].column@ + " = "@
                + render::rendered(list[i].value),
    ensures
        set_clause(list) == text::joined(texts, ", "@),
{
    assert(texts =~= list.map_values(|a: Assignment| assignment_text(a)));
}

/// An `UPDATE` changes every row that was found, each in its own place, in the way that the clause
/// says; where the rows or their places could not be found, or the clause is not understood, it
/// changes nothing and says why.
pub proof fn law_update_changes_the_found_rows(
    r: UpdateStep,
    found: FoundRows,
    parsed: Option<Seq<SetAssignment>>,
)
    requires
        update_step(r, found, parsed),
    ensures
        found matches FoundRows::PlanFailed(e) ==> (r is Report && r->Report_0@
            == "Update failed: Plan error: "@ + e@),
        found matches FoundRows::ExecutionFailed(e) ==> (r is Report && r->Report_0@
            == "Update failed: "@ + e@),
        found matches FoundRows::Rows(rows) ==> {
            let placed = forall|i: int|
                0 <= i < rows@.len() ==> (#[trigger] rows@[i]).0 is Some && rows@[i].1 is Some;
            &&& r is Apply <==> placed && parsed is Some
            &&& r is Apply ==> r->assignments@ == parsed->0 && r->pointers@.len() == rows@.len()
                && forall|i: int|
                0 <= i < rows@.len() ==> Some((#[trigger] r->pointers@[i]).0) == rows@[i].0
                    && Some(r->pointers@[i].1) == rows@[i].1
            &&& placed && parsed is None ==> r->Report_0@ == "Could not parse SET clause."@
            &&& !placed ==> r->Report_0@
                == "Update failed: engine returned rows without heap locations"@
        },
{
    reveal_strlit("Update");
    reveal_strlit(" failed: ");
    reveal_strlit("Plan error: ");
    reveal_strlit("Update failed: ");
    reveal_strlit("Update failed: Plan error: ");
    reveal_strlit(" failed: engine returned rows without heap locations");
    reveal_strlit("Update failed: engine returned rows without heap locations");
    assert("Update"@ + " failed: "@ =~= "Update failed: "@);
    assert("Update"@ + " failed: "@ + "Plan error: "@ =~= "Update failed: Plan error: "@);
    assert("Update"@ + " failed: engine returned rows without heap locations"@
        =~= "Update failed: engine returned rows without heap locations"@);
    if let FoundRows::Rows(rows) = found {
        assert(all_placed(rows@) <==> forall|i: int|
            0 <= i < rows@.len() ==> (#[trigger] rows@[i]).0 is Some && rows@[i].1 is Some) by {
            if all_placed(rows@) {
                assert forall|i: int| 0 <= i < rows@.len() implies (#[trigger] rows@[i]).0 is Some
                    && rows@[i].1 is Some by {
                    assert(is_placed(rows@[i]));
                }
            }
        }
        if r is Apply {
            assert forall|i: int| 0 <= i < rows@.len() implies Some(
                (#[trigger] r->pointers@[i]).0,
            ) == rows@[i].0 && Some(r->pointers@[i].1) == rows@[i].1 by {
                assert(is_placed(rows@[i]));
            }
        }
    }
}

/// The rows that an `UPDATE` or a `DELETE` changes are looked up in the selected database, by a
/// query for whole rows of the statement's table under the statement's own condition, all of them
/// and each once; without a selected database nothing is looked up.
pub proof fn law_changed_rows_are_looked_up(
    r: RowStep,
    current_db: Option<String>,
    table: Seq<char>,
    selection: Option<PredicateNode>,
)
    requires
        first_step(r, current_db, table, selection),
    ensures
        current_db is None ==> r is Report && r->Report_0@
            == "No database selected. Use 'USE <database>' first."@,
        current_db is Some ==> {
            &&& r is Select
            &&& r->db@ == current_db->0@
            &&& r->query.from@.len() == 1
            &&& r->query.from@[0].name@ == table
            &&& r->query.selection == selection
            &&& r->query.projections@.len() == 1
            &&& r->query.projections@[0] is Wildcard
            &&& r->query.joins@.len() == 0
            &&& r->query.ctes@.len() == 0
            &&& r->query.group_by@.len() == 0
            &&& r->query.order_by@.len() == 0
            &&& r->query.having is None
            &&& r->query.limit is None
            &&& !r->query.distinct
        },
{
}

/// A `DELETE` removes every row that was found, each in its own place, or says why it cannot.
pub proof fn law_delete_removes_the_found_rows(found: FoundRows)
    ensures
        found matches FoundRows::PlanFailed(e) ==> located(found, "Delete"@) == Err::<
            Seq<(u32, u32)>,
            Seq<char>,
        >("Delete failed: Plan error: "@ + e@),
        found matches FoundRows::ExecutionFailed(e) ==> located(found, "Delete"@) == Err::<
            Seq<(u32, u32)>,
            Seq<char>,
        >("Delete failed: "@ + e@),
        found matches FoundRows::Rows(rows) ==> {
            let placed = forall|i: int|
                0 <= i < rows@.len() ==> (#[trigger] rows@[i]).0 is Some && rows@[i].1 is Some;
            &&& located(found, "Delete"@) is Ok <==> placed
            &&& placed ==> located(found, "Delete"@)->Ok_0.len() == rows@.len()
            &&& placed ==> forall|i: int|
                0 <= i < rows@.len() ==> Some(
                    (#[trigger] located(found, "Delete"@)->Ok_0[i]).0,
                ) == rows@[i].0 && Some(located(found, "Delete"@)->Ok_0[i].1) == rows@[i].1
            &&& !placed ==> located(found, "Delete"@)->Err_0
                == "Delete failed: engine returned rows without heap locations"@
        },
{
    reveal_strlit("Delete");
    reveal_strlit(" failed: ");
    reveal_strlit("Plan error: ");
    reveal_strlit("Delete failed: ");
    reveal_strlit("Delete failed: Plan error: ");
    reveal_strlit(" failed: engine returned rows without heap locations");
    reveal_strlit("Delete failed: engine returned rows without heap locations");
    assert("Delete"@ + " failed: "@ =~= "Delete failed: "@);
    assert("Delete"@ + " failed: "@ + "Plan error: "@ =~= "Delete failed: Plan error: "@);
    assert("Delete"@ + " failed: engine returned rows without heap locations"@
        =~= "Delete failed: engine returned rows without heap locations"@);
    if let FoundRows::Rows(rows) = found {
        if all_placed(rows@) {
            assert forall|i: int| 0 <= i < rows@.len() implies (#[trigger] rows@[i]).0 is Some
                && rows@[i].1 is Some by {
                assert(is_placed(rows@[i]));
            }
        }
    }
}

/// Each row to insert is reported by its own outcome.
pub proof fn law_insert_is_reported(e: String)
    ensures
        insert_report(InsertOutcome::Inserted) == "1 row inserted."@,
        insert_report(InsertOutcome::Rejected) == "Insert failed."@,
        insert_report(InsertOutcome::Failed(e)) == "Insert error: "@ + e@,
{
}

/// An update and a deletion are each reported with the number of the rows that they changed, or with
/// the cause that kept them from it.
pub proof fn law_changes_are_counted(n: usize, e: String, updated: String, deleted: String, o: ChangeOutcome)
    requires
        o == ChangeOutcome::Changed(n) || o == ChangeOutcome::Failed(e),
        call_ensures(update_line, (&o,), updated),
        call_ensures(delete_line, (&o,), deleted),
    ensures
        o is Changed ==> updated@ == "\nUpdated "@ + text::decimal(n as nat) + " row(s)."@,
        o is Changed ==> deleted@ == "\nDeleted "@ + text::decimal(n as nat) + " row(s)."@,
        o is Failed ==> updated@ == "Update failed: "@ + e@,
        o is Failed ==> deleted@ == "Delete failed: "@ + e@,
{
}

/// The rows that an `INSERT .. SELECT` inserts are counted; a query that fails is reported by the
/// step that it fails at, with the cause.
pub proof fn law_inserted_queries_are_counted(o: QueryOutcome, line: String)
    requires
        call_ensures(insert_query_line, (&o,), line),
    ensures
        o matches QueryOutcome::Rows(n) ==> line@ == text::decimal(n as nat)
            + " row(s) inserted.\n"@,
        o matches QueryOutcome::ExecutionFailed(e) ==> line@ == "Insert execution error: "@ + e@,
        o matches QueryOutcome::PlanFailed(e) ==> line@ == "Insert planning error: "@ + e@,
{
}

/// The rows to change are looked up under the statement's own condition, for an `UPDATE` as for a
/// `DELETE`.
pub proof fn law_both_statements_look_the_rows_up(
    current_db: Option<String>,
    table: &str,
    selection: Option<PredicateNode>,
    updates: RowStep,
    deletes: RowStep,
)
    requires
        call_ensures(handle_update, (&current_db, table, selection), updates),
        call_ensures(handle_delete, (&current_db, table, selection), deletes),
    ensures
        current_db matches Some(db) ==> (updates matches RowStep::Select { db: d, query } && d@ == db@
            && query.selection == selection && query.from@.len() == 1 && query.from@[0].name@
            == table@),
        current_db matches Some(db) ==> (deletes matches RowStep::Select { db: d, query } && d@ == db@
            && query.selection == selection && query.from@.len() == 1 && query.from@[0].name@
            == table@),
        current_db is None ==> updates is Report && deletes is Report,
{
}

} // verus!
