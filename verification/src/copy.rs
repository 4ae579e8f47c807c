//! `CREATE TABLE .. AS SELECT`.

use vstd::prelude::*;
use storage_manager::types::DataValue;
use crate::catalog;
use crate::catalog::{Catalog, Column, ColumnView, DatabaseView};
use crate::datatype;
use crate::datatype::{parse_type, show_value, value_has_text, ColumnType};
use crate::effects;
use crate::effects::{Effect, EffectView};
use crate::errors;
use crate::errors::{DbError, ErrorKind, ErrorView};
use crate::logical;
use crate::logical::{logical_plan_schema, LogicalPlan};
use crate::tables;
use crate::text;

verus! {

#[derive(Debug, PartialEq)]
pub struct ColumnInfo {
    pub name: String,
    pub data_type: ColumnType,
}

/// A row that a query gave, with its place in the heap where it has one.
#[derive(Debug, PartialEq)]
pub struct Tuple {
    pub column_info: Vec<ColumnInfo>,
    pub values: Vec<Option<DataValue>>,
    pub page_id: Option<u32>,
    pub slot_id: Option<u32>,
}

/// What became of the query.
#[derive(Debug, PartialEq)]
pub enum QueryRows {
    PlanFailed(String),
    ExecutionFailed(String),
    Rows { plan: LogicalPlan, tuples: Vec<Tuple> },
}

/// The literal of a value; `NULL` where there is none.
pub open spec fn literal(v: Option<DataValue>) -> Seq<char> {
    match v {
        Some(dv) => datatype::value_text(dv),
        None => "NULL"@,
    }
}

pub open spec fn literals(values: Seq<Option<DataValue>>) -> Seq<Seq<char>> {
    values.map_values(|v: Option<DataValue>| literal(v))
}

/// The type that a text names; `VARCHAR(255)` where it names none.
pub open spec fn type_or_text(ty: Seq<char>) -> ColumnType {
    match datatype::parsed_type(ty) {
        Ok(t) => t,
        Err(_) => ColumnType::Varchar(255),
    }
}

/// The columns of a table with this schema.
pub open spec fn schema_columns(schema: Seq<(Seq<char>, Seq<char>)>) -> Seq<ColumnView> {
    schema.map_values(
        |c: (Seq<char>, Seq<char>)| catalog::plain_column(c.0, type_or_text(c.1)),
    )
}

/// The columns of a table that holds rows of this shape.
pub open spec fn tuple_columns(info: Seq<ColumnInfo>) -> Seq<ColumnView> {
    info.map_values(|c: ColumnInfo| catalog::plain_column(c.name@, c.data_type))
}

pub open spec fn tuple_literals(tuples: Seq<Tuple>) -> Seq<Seq<Seq<char>>> {
    tuples.map_values(|t: Tuple| literals(t.values@))
}

/// What `CREATE TABLE .. AS SELECT` does, given what became of the query.
///
/// The columns are those of the first row; of a query without rows, those of its plan.
pub open spec fn create_table_as(
    c: Map<Seq<char>, DatabaseView>,
    db: Seq<char>,
    table: Seq<char>,
    rows: QueryRows,
) -> Result<Seq<EffectView>, ErrorView> {
    if !c.contains_key(db) {
        Err(tables::no_database(db))
    } else if c[db].tables.contains_key(table) {
        Err(errors::error(ErrorKind::AlreadyExists, "Table '"@ + table + "' already exists"@))
    } else {
        match rows {
            QueryRows::PlanFailed(e) => Err(
                errors::error(ErrorKind::InvalidInput, "Failed to plan SELECT query: "@ + e@),
            ),
            QueryRows::ExecutionFailed(e) => Err(
                errors::error(ErrorKind::Other, "Failed to execute SELECT query: "@ + e@),
            ),
            QueryRows::Rows { plan, tuples } => if tuples@.len() > 0 {
                Ok(
                    seq![
                        EffectView::CreateTable {
                            db,
                            table,
                            columns: tuple_columns(tuples@[0].column_info@),
                        },
                        EffectView::CopyRows { db, table, rows: tuple_literals(tuples@) },
                    ],
                )
            } else if logical::output_schema(plan).len() == 0 {
                Err(
                    errors::error(
                        ErrorKind::InvalidInput,
                        "Cannot determine column types for CREATE TABLE AS SELECT"@,
                    ),
                )
            } else {
                Ok(
                    seq![
                        EffectView::CreateTable {
                            db,
                            table,
                            columns: schema_columns(logical::output_schema(plan)),
                        },
                        EffectView::Print {
                            text: "Table '"@ + table + "' created successfully (0 rows)."@,
                        },
                    ],
                )
            },
        }
    }
}

/// Every value of a row has a text.
pub open spec fn row_has_text(values: Seq<Option<DataValue>>) -> bool {
    forall|i: int|
        0 <= i < values.len() && (#[trigger] values[i]) is Some ==> datatype::has_text(values[i]->0)
}

/// Every value that the query gave has a text.
pub open spec fn rows_have_text(rows: QueryRows) -> bool {
    rows matches QueryRows::Rows { tuples, .. } ==> forall|i: int|
        0 <= i < tuples@.len() ==> row_has_text((#[trigger] tuples@[i]).values@)
}

/// A table of this name can be created: the database is there, and has no such table.
pub open spec fn is_new(
    c: Map<Seq<char>, DatabaseView>,
    db: Seq<char>,
    table: Seq<char>,
) -> bool {
    c.contains_key(db) && !catalog::has_table(c, db, table)
}

/// Whether every value of a row has a text.
pub fn row_is_shown(values: &Vec<Option<DataValue>>) -> (r: bool)
    ensures
        r == row_has_text(values@),
{
    let mut i: usize = 0;
    while i < values.len()
        invariant
            i <= values.len(),
            forall|j: int|
                0 <= j < i && (#[trigger] values@[j]) is Some ==> datatype::has_text(values@[j]->0),
        decreases values.len() - i,
    {
        if let Some(v) = &values[i] {
            if !value_has_text(v) {
                assert(values@[i as int] is Some);
                return false;
            }
        }
        i = i + 1;
    }
    true
}

/// Whether every value that the query gave has a text.
#[verifier::loop_isolation(false)]
pub fn rows_are_shown(rows: &QueryRows) -> (r: bool)
    ensures
        r == rows_have_text(*rows),
{
    if let QueryRows::Rows { plan: _, tuples } = rows {
        let mut i: usize = 0;
        while i < tuples.len()
            invariant
                i <= tuples.len(),
                forall|j: int| 0 <= j < i ==> row_has_text((#[trigger] tuples@[j]).values@),
            decreases tuples.len() - i,
        {
            if !row_is_shown(&tuples[i].values) {
                assert(!row_has_text(tuples@[i as int].values@));
                return false;
            }
            i = i + 1;
        }
    }
    true
}

fn literal_text(v: &Option<DataValue>) -> (r: String)
    requires
        *v is Some ==> datatype::has_text((*v)->0),
    ensures
        r@ == literal(*v),
{
    match v {
        Some(dv) => show_value(dv),
        None => "NULL".to_owned(),
    }
}

/// The literals of a row's values.
pub fn literal_texts(values: &Vec<Option<DataValue>>) -> (r: Vec<String>)
    requires
        row_has_text(values@),
    ensures
        text::views(r@) == literals(values@),
{
    let mut r: Vec<String> = Vec::new();
    let mut i: usize = 0;
    while i < values.len()
        invariant
            i <= values.len(),
            row_has_text(values@),
            text::views(r@) == literals(values@).take(i as int),
        decreases values.len() - i,
    {
        let ghost done = text::views(r@);
        r.push(literal_text(&values[i]));
        assert(text::views(r@) =~= done.push(literals(values@)[i as int]));
        i = i + 1;
    }
    assert(literals(values@).take(i as int) =~= literals(values@));
    r
}

/// The literals of a row's values; none where a value has no text.
pub fn try_literal_texts(values: &Vec<Option<DataValue>>) -> (r: Option<Vec<String>>)
    ensures
        r is Some <==> row_has_text(values@),
        r is Some ==> text::views(r->0@) == literals(values@),
{
    if row_is_shown(values) {
        Some(literal_texts(values))
    } else {
        None
    }
}

fn columns_of_schema(schema: &Vec<(String, String)>) -> (r: Vec<Column>)
    ensures
        catalog::column_views(r@) == schema_columns(logical::schema_view(schema@)),
{
    let ghost all = schema_columns(logical::schema_view(schema@));
    let mut r: Vec<Column> = Vec::new();
    let mut i: usize = 0;
    while i < schema.len()
        invariant
            i <= schema.len(),
            all == schema_columns(logical::schema_view(schema@)),
            catalog::column_views(r@) == all.take(i as int),
        decreases schema.len() - i,
    {
        let ghost done = catalog::column_views(r@);
        let ty = match parse_type(schema[i].1.as_str()) {
            Ok(ty) => ty,
            Err(_) => ColumnType::Varchar(255),
        };
        r.push(Column::new(schema[i].0.clone(), ty));
        assert(catalog::column_views(r@) =~= done.push(all[i as int]));
        i = i + 1;
    }
    assert(all.take(i as int) =~= all);
    r
}

fn columns_of_tuple(info: &Vec<ColumnInfo>) -> (r: Vec<Column>)
    ensures
        catalog::column_views(r@) == tuple_columns(info@),
{
    let ghost all = tuple_columns(info@);
    let mut r: Vec<Column> = Vec::new();
    let mut i: usize = 0;
    while i < info.len()
        invariant
            i <= info.len(),
            all == tuple_columns(info@),
            catalog::column_views(r@) == all.take(i as int),
        decreases info.len() - i,
    {
        let ghost done = catalog::column_views(r@);
        r.push(Column::new(info[i].name.clone(), info[i].data_type));
        assert(catalog::column_views(r@) =~= done.push(all[i as int]));
        i = i + 1;
    }
    assert(all.take(i as int) =~= all);
    r
}

/// Plans `CREATE TABLE .. AS SELECT`, given what became of the query. The values that are copied
/// must have texts.
pub fn execute_create_table_as_select(
    catalog: &Catalog,
    db: &str,
    table: &str,
    rows: &QueryRows,
) -> (r: Result<Vec<Effect>, DbError>)
    requires
        is_new(catalog@, db@, table@) ==> rows_have_text(*rows),
    ensures
        effects::outcome(r) == create_table_as(catalog@, db@, table@, *rows),
{
    if !catalog.databases.contains_key(db) {
        let message = text::cat3("Database '", db, "' not found");
        return Err(DbError { kind: ErrorKind::NotFound, message });
    }
    if catalog.table(db, table).is_some() {
        let message = text::cat3("Table '", table, "' already exists");
        return Err(DbError { kind: ErrorKind::AlreadyExists, message });
    }
    let (plan, tuples) = match rows {
        QueryRows::PlanFailed(e) => {
            let message = text::cat2("Failed to plan SELECT query: ", e.as_str());
            return Err(DbError { kind: ErrorKind::InvalidInput, message });
        },
        QueryRows::ExecutionFailed(e) => {
            let message = text::cat2("Failed to execute SELECT query: ", e.as_str());
            return Err(DbError { kind: ErrorKind::Other, message });
        },
        QueryRows::Rows { plan, tuples } => (plan, tuples),
    };
    let mut out: Vec<Effect> = Vec::new();
    if tuples.len() == 0 {
        let schema = logical_plan_schema(plan);
        assert(logical::schema_view(schema@).len() == schema@.len());
        if schema.len() == 0 {
            let message = "Cannot determine column types for CREATE TABLE AS SELECT".to_owned();
            return Err(DbError { kind: ErrorKind::InvalidInput, message });
        }
        let columns = columns_of_schema(&schema);
        out.push(Effect::CreateTable { db: db.to_owned(), table: table.to_owned(), columns });
        out.push(
            Effect::Print { text: text::cat3("Table '", table, "' created successfully (0 rows).") },
        );
    } else {
        let columns = columns_of_tuple(&tuples[0].column_info);
        let mut copied: Vec<Vec<String>> = Vec::new();
        let mut i: usize = 0;
        while i < tuples.len()
            invariant
                i <= tuples.len(),
                forall|j: int|
                    0 <= j < tuples@.len() ==> row_has_text((#[trigger] tuples@[j]).values@),
                effects::literal_rows(copied@) == tuple_literals(tuples@).take(i as int),
            decreases tuples.len() - i,
        {
            let ghost done = effects::literal_rows(copied@);
            copied.push(literal_texts(&tuples[i].values));
            assert(effects::literal_rows(copied@) =~= done.push(tuple_literals(tuples@)[i as int]));
            i = i + 1;
        }
        assert(tuple_literals(tuples@).take(i as int) =~= tuple_literals(tuples@));
        out.push(Effect::CreateTable { db: db.to_owned(), table: table.to_owned(), columns });
        out.push(
            Effect::CopyRows { db: db.to_owned(), table: table.to_owned(), rows: copied },
        );
    }
    assert(effects::shown(out@) =~= create_table_as(catalog@, db@, table@, *rows)->Ok_0);
    Ok(out)
}

/// What became of one row to insert.
#[derive(Debug, PartialEq)]
pub enum InsertOutcome {
    Inserted,
    /// The engine refused the row.
    Rejected,
    /// The engine failed, for this reason.
    Failed(String),
}

/// The number of rows inserted.
pub open spec fn inserted(outcomes: Seq<InsertOutcome>) -> nat
    decreases outcomes.len(),
{
    if outcomes.len() == 0 {
        0
    } else {
        inserted(outcomes.drop_last()) + if outcomes.last() is Inserted {
            1nat
        } else {
            0nat
        }
    }
}

/// A line for every row that was not inserted.
pub open spec fn copy_failures(outcomes: Seq<InsertOutcome>) -> Seq<Seq<char>>
    decreases outcomes.len(),
{
    if outcomes.len() == 0 {
        Seq::empty()
    } else {
        let before = copy_failures(outcomes.drop_last());
        match outcomes.last() {
            InsertOutcome::Inserted => before,
            InsertOutcome::Rejected => before.push("Insert failed for one row."@),
            InsertOutcome::Failed(e) => before.push("Insert error: "@ + e@),
        }
    }
}

/// The lines that report a copied query.
pub open spec fn copy_report(table: Seq<char>, outcomes: Seq<InsertOutcome>) -> Seq<Seq<char>> {
    copy_failures(outcomes).push(
        "Table '"@ + table + "' created successfully with "@ + text::decimal(inserted(outcomes))
            + " row(s)."@,
    )
}

/// The lines that report a copied query.
pub fn copy_report_lines(table: &str, outcomes: &Vec<InsertOutcome>) -> (r: Vec<String>)
    ensures
        text::views(r@) == copy_report(table@, outcomes@),
{
    let ghost all = outcomes@;
    let mut r: Vec<String> = Vec::new();
    let mut n: usize = 0;
    let mut i: usize = 0;
    assert(text::views(r@) =~= copy_failures(all.take(0)));
    while i < outcomes.len()
        invariant
            i <= outcomes.len(),
            all == outcomes@,
            n <= i,
            n == inserted(all.take(i as int)),
            text::views(r@) == copy_failures(all.take(i as int)),
        decreases outcomes.len() - i,
    {
        let ghost done = text::views(r@);
        assert(all.take(i + 1).drop_last() =~= all.take(i as int));
        assert(all.take(i + 1).last() == all[i as int]);
        match &outcomes[i] {
            InsertOutcome::Inserted => {
                n = n + 1;
            },
            InsertOutcome::Rejected => {
                r.push("Insert failed for one row.".to_owned());
                assert(text::views(r@) =~= done.push("Insert failed for one row."@));
            },
            InsertOutcome::Failed(e) => {
                r.push(text::cat2("Insert error: ", e.as_str()));
                assert(text::views(r@) =~= done.push("Insert error: "@ + e@));
            },
        }
        i = i + 1;
    }
    assert(all.take(i as int) =~= all);
    let ghost done = text::views(r@);
    let count = text::decimal_text(n as u128);
    r.push(
        text::cat5("Table '", table, "' created successfully with ", count.as_str(), " row(s)."),
    );
    assert(text::views(r@) =~= copy_report(table@, outcomes@));
    r
}

/// Every row of a copied query is accounted for: counted as inserted, or reported.
pub proof fn law_copy_accounts_for_every_row(outcomes: Seq<InsertOutcome>)
    ensures
        inserted(outcomes) + copy_failures(outcomes).len() == outcomes.len(),
    decreases outcomes.len(),
{
    if outcomes.len() > 0 {
        law_copy_accounts_for_every_row(outcomes.drop_last());
    }
}

/// The new table has the columns of the query's rows, each with its name and type, nullable and
/// without constraints; every row is copied, in order, and of every row every value: by its text, or
/// as `NULL` where there is none.
pub proof fn law_query_is_copied(
    c: Map<Seq<char>, DatabaseView>,
    db: Seq<char>,
    table: Seq<char>,
    plan: LogicalPlan,
    tuples: Vec<Tuple>,
    i: int,
    j: int,
)
    requires
        c.contains_key(db),
        !c[db].tables.contains_key(table),
        tuples@.len() > 0,
    ensures
        ({
            let r = create_table_as(c, db, table, QueryRows::Rows { plan, tuples });
            let info = tuples@[0].column_info@;
            &&& r is Ok
            &&& r->Ok_0.len() == 2
            &&& r->Ok_0[0] matches EffectView::CreateTable { db: d, table: t, columns }
            &&& d == db && t == table && columns.len() == info.len()
            &&& 0 <= i < info.len() ==> columns[i] == (ColumnView {
                name: info[i].name@,
                data_type: info[i].data_type,
                nullable: true,
                not_null: false,
                unique: false,
                default: None,
                check: None,
            })
            &&& r->Ok_0[1] matches EffectView::CopyRows { db: d2, table: t2, rows }
            &&& d2 == db && t2 == table && rows.len() == tuples@.len()
            &&& 0 <= i < tuples@.len() ==> rows[i].len() == tuples@[i].values@.len()
            &&& 0 <= i < tuples@.len() && 0 <= j < tuples@[i].values@.len() ==> rows[i][j] == (
            match tuples@[i].values@[j] {
                Some(v) => datatype::value_text(v),
                None => "NULL"@,
            })
        }),
{
}

/// A query without rows gives a table of its plan's columns, each with its name and the type that
/// is written there, `VARCHAR(255)` where none is; no row is copied, and this is reported. A plan
/// without columns gives no table.
pub proof fn law_query_without_rows_gives_a_table(
    c: Map<Seq<char>, DatabaseView>,
    db: Seq<char>,
    table: Seq<char>,
    plan: LogicalPlan,
    tuples: Vec<Tuple>,
    i: int,
)
    requires
        c.contains_key(db),
        !c[db].tables.contains_key(table),
        tuples@.len() == 0,
    ensures
        ({
            let r = create_table_as(c, db, table, QueryRows::Rows { plan, tuples });
            let schema = logical::output_schema(plan);
            &&& schema.len() == 0 ==> r is Err && r->Err_0.kind is InvalidInput
                && r->Err_0.message == "Cannot determine column types for CREATE TABLE AS SELECT"@
            &&& schema.len() > 0 ==> {
                &&& r is Ok
                &&& r->Ok_0.len() == 2
                &&& r->Ok_0[0] matches EffectView::CreateTable { db: d, table: t, columns }
                &&& d == db && t == table && columns.len() == schema.len()
                &&& 0 <= i < schema.len() ==> columns[i] == (ColumnView {
                    name: schema[i].0,
                    data_type: match datatype::parsed_type(schema[i].1) {
                        Ok(ty) => ty,
                        Err(_) => ColumnType::Varchar(255),
                    },
                    nullable: true,
                    not_null: false,
                    unique: false,
                    default: None,
                    check: None,
                })
                &&& r->Ok_0[1] == (EffectView::Print {
                    text: "Table '"@ + table + "' created successfully (0 rows)."@,
                })
            }
        }),
{
}

/// Nothing is created in a database that is not there, in the place of a table that is, or of a
/// query that fails.
pub proof fn law_nothing_is_copied_in_vain(
    c: Map<Seq<char>, DatabaseView>,
    db: Seq<char>,
    table: Seq<char>,
    rows: QueryRows,
)
    ensures
        ({
            let r = create_table_as(c, db, table, rows);
            &&& !c.contains_key(db) ==> r is Err && r->Err_0.kind is NotFound && r->Err_0.message
                == "Database '"@ + db + "' not found"@
            &&& c.contains_key(db) && c[db].tables.contains_key(table) ==> r is Err
                && r->Err_0.kind is AlreadyExists && r->Err_0.message == "Table '"@ + table
                + "' already exists"@
            &&& c.contains_key(db) && !c[db].tables.contains_key(table) ==> (
            rows matches QueryRows::PlanFailed(e) ==> r is Err && r->Err_0.kind is InvalidInput
                && r->Err_0.message == "Failed to plan SELECT query: "@ + e@)
            &&& c.contains_key(db) && !c[db].tables.contains_key(table) ==> (
            rows matches QueryRows::ExecutionFailed(e) ==> r is Err && r->Err_0.kind is Other
                && r->Err_0.message == "Failed to execute SELECT query: "@ + e@)
        }),
{
}

/// Every row's outcome is in the report: one that was inserted is counted, one that was refused has
/// a line, and one that failed has a line with the cause; the count comes last.
pub proof fn law_copy_is_reported_row_by_row(
    table: Seq<char>,
    outcomes: Seq<InsertOutcome>,
    next: InsertOutcome,
)
    ensures
        inserted(Seq::empty()) == 0,
        copy_failures(Seq::empty()).len() == 0,
        next is Inserted ==> inserted(outcomes.push(next)) == inserted(outcomes) + 1
            && copy_failures(outcomes.push(next)) == copy_failures(outcomes),
        !(next is Inserted) ==> inserted(outcomes.push(next)) == inserted(outcomes),
        next is Rejected ==> copy_failures(outcomes.push(next)) == copy_failures(outcomes).push(
            "Insert failed for one row."@,
        ),
        next matches InsertOutcome::Failed(e) ==> copy_failures(outcomes.push(next))
            == copy_failures(outcomes).push("Insert error: "@ + e@),
        copy_report(table, outcomes).drop_last() == copy_failures(outcomes),
        copy_report(table, outcomes).last() == "Table '"@ + table + "' created successfully with "@
            + text::decimal(inserted(outcomes)) + " row(s)."@,
{
    assert(outcomes.push(next).drop_last() =~= outcomes);
    assert(copy_report(table, outcomes).drop_last() =~= copy_failures(outcomes));
}

} // verus!
