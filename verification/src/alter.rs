//! `ALTER TABLE`.

use vstd::prelude::*;
use crate::catalog;
use crate::catalog::{Catalog, CatalogEdit, Column, ColumnView, DatabaseView, EditView, Table};
use crate::datatype;
use crate::datatype::{parse_literal, parse_type, ColumnType};
use crate::effects;
use crate::effects::{Effect, EffectView};
use crate::errors;
use crate::errors::{DbError, ErrorKind, ErrorView};
use crate::files;
use crate::row;
use crate::row::{column_is_null, migrate_rows, RowChange};
use crate::tables;
use crate::text;

verus! {

/// A column as a statement declares it.
#[derive(Debug, PartialEq)]
pub struct ColumnDef {
    pub name: String,
    pub data_type: String,
    pub constraints: Vec<String>,
}

#[allow(inconsistent_fields)]
#[derive(Debug, PartialEq)]
pub enum AlterTableAction {
    RenameTable { new_name: String },
    AddColumn { column_def: ColumnDef },
    DropColumn { column: String },
    RenameColumn { old_name: String, new_name: String },
    SetDefault { column: String, default_expr: String },
    DropDefault { column: String },
    SetNotNull { column: String },
    DropNotNull { column: String },
}

#[derive(Debug, PartialEq)]
pub struct AlterTablePlan {
    pub table: String,
    pub action: AlterTableAction,
}

/// What is known of a table's heap file. It matters to the actions that must look at the rows:
/// adding and dropping a column, and `SET NOT NULL`.
#[derive(Debug, PartialEq)]
pub enum HeapState {
    /// There is no heap file.
    Missing,
    /// It could not be opened, for this reason.
    OpenFailed(String),
    /// Its rows, in the order of the scan, and its size in bytes where that is known.
    Open { rows: Vec<Result<Vec<u8>, DbError>>, size: Option<u64> },
}

/// The size of a heap file that holds its header page only.
pub const HEADER_PAGE_BYTES: u64 = 8192;

pub open spec fn no_column(table: Seq<char>, column: Seq<char>) -> ErrorView {
    errors::error(
        ErrorKind::NotFound,
        "Column '"@ + column + "' not found in table '"@ + table + "'"@,
    )
}

/// The column that an action is about, by the name that the statement gives; none for an action
/// that is about no existing column.
pub open spec fn subject(action: AlterTableAction) -> Option<Seq<char>> {
    match action {
        AlterTableAction::RenameTable { .. } => None,
        AlterTableAction::AddColumn { .. } => None,
        AlterTableAction::DropColumn { column } => Some(column@),
        AlterTableAction::RenameColumn { old_name, .. } => Some(old_name@),
        AlterTableAction::SetDefault { column, .. } => Some(column@),
        AlterTableAction::DropDefault { column } => Some(column@),
        AlterTableAction::SetNotNull { column } => Some(column@),
        AlterTableAction::DropNotNull { column } => Some(column@),
    }
}

/// One column after an action that changes a column in place.
pub open spec fn altered_column(c: ColumnView, action: AlterTableAction) -> ColumnView {
    match action {
        AlterTableAction::RenameColumn { new_name, .. } => ColumnView { name: new_name@, ..c },
        AlterTableAction::SetDefault { default_expr, .. } => ColumnView {
            default: datatype::literal_value(c.data_type, default_expr@),
            ..c
        },
        AlterTableAction::DropDefault { .. } => ColumnView { default: None, ..c },
        AlterTableAction::SetNotNull { .. } => ColumnView { nullable: false, not_null: true, ..c },
        AlterTableAction::DropNotNull { .. } => ColumnView { nullable: true, not_null: false, ..c },
        _ => c,
    }
}

/// The columns of a table after the action, or why it is refused.
pub open spec fn altered_columns(
    table: Seq<char>,
    columns: Seq<ColumnView>,
    action: AlterTableAction,
) -> Result<Seq<ColumnView>, ErrorView> {
    match action {
        AlterTableAction::RenameTable { .. } => Ok(columns),
        AlterTableAction::AddColumn { column_def } => match datatype::parsed_type(
            column_def.data_type@,
        ) {
            Err(e) => Err(errors::error(ErrorKind::InvalidInput, "Invalid data type: "@ + e)),
            Ok(ty) => if catalog::column_index(columns, column_def.name@) is Some {
                Err(
                    errors::error(
                        ErrorKind::AlreadyExists,
                        "Column '"@ + column_def.name@ + "' already exists in table '"@ + table
                            + "'"@,
                    ),
                )
            } else {
                Ok(columns.push(catalog::plain_column(column_def.name@, ty)))
            },
        },
        _ => match catalog::column_index(columns, subject(action)->0) {
            None => Err(no_column(table, subject(action)->0)),
            Some(i) => if action is DropColumn {
                Ok(columns.remove(i))
            } else {
                Ok(columns.update(i, altered_column(columns[i], action)))
            },
        },
    }
}

/// The effects that put rewritten rows in the place of a heap file: written beside it first, so
/// that a failure leaves the file as it was.
pub open spec fn swap_heap(
    db: Seq<char>,
    table: Seq<char>,
    task: Seq<char>,
    rows: Seq<Seq<u8>>,
) -> Seq<EffectView> {
    let heap = files::heap_file(db, table);
    let tmp = heap + ".backfill"@;
    seq![
        EffectView::WriteHeap {
            path: tmp,
            rows,
            context: "Failed to create temp heap for "@ + task + ": "@,
        },
        EffectView::RemoveFileOrFail {
            path: heap,
            context: "Failed to remove old heap during "@ + task + ": "@,
        },
        EffectView::RemoveFile { path: files::fsm_file(heap) },
        EffectView::RenameFileOrFail {
            from: tmp,
            to: heap,
            context: "Failed to rename backfill heap: "@,
        },
        EffectView::RenameFile { from: files::fsm_file(tmp), to: files::fsm_file(heap) },
        EffectView::RemoveIndexFiles { db, table },
    ]
}

/// The rewrite of a heap file that a change of columns takes.
pub open spec fn rewrite(
    db: Seq<char>,
    table: Seq<char>,
    task: Seq<char>,
    change: RowChange,
    old: Seq<ColumnType>,
    new: Seq<ColumnType>,
    heap: HeapState,
) -> Result<Seq<EffectView>, ErrorView> {
    match heap {
        HeapState::Missing => Ok(Seq::empty()),
        HeapState::OpenFailed(e) => Err(
            errors::error(ErrorKind::Other, "Failed to open heap for "@ + task + ": "@ + e@),
        ),
        HeapState::Open { rows, size } => match row::migrated_rows(
            change,
            old,
            new,
            task,
            row::scan_views(rows@),
        ) {
            Err(e) => Err(e),
            Ok(done) => Ok(swap_heap(db, table, task, done)),
        },
    }
}

/// The first reason among the scanned rows to refuse `SET NOT NULL` on column `i`: the scan
/// failed, or the row has `NULL` there.
pub open spec fn null_found(
    table: Seq<char>,
    column: Seq<char>,
    i: int,
    rows: Seq<Result<Seq<u8>, ErrorView>>,
) -> Option<ErrorView>
    decreases rows.len(),
{
    if rows.len() == 0 {
        None
    } else {
        match rows[0] {
            Err(e) => Some(e),
            Ok(bytes) => if row::null_in_row(bytes, i) {
                Some(
                    errors::error(
                        ErrorKind::InvalidInput,
                        "Table '"@ + table + "' contains NULL values in column '"@ + column
                            + "'; cannot alter to NOT NULL"@,
                    ),
                )
            } else {
                null_found(table, column, i, rows.drop_first())
            },
        }
    }
}

/// The validation of `SET NOT NULL`. A heap file of known size that has no data page holds no
/// rows and is not scanned.
pub open spec fn validated(
    table: Seq<char>,
    column: Seq<char>,
    i: int,
    heap: HeapState,
) -> Result<Seq<EffectView>, ErrorView> {
    match heap {
        HeapState::Missing => Ok(Seq::empty()),
        HeapState::OpenFailed(e) => Err(
            errors::error(
                ErrorKind::Other,
                "Failed to open heap for SET NOT NULL validation: "@ + e@,
            ),
        ),
        HeapState::Open { rows, size } => if size is Some && size->0 <= HEADER_PAGE_BYTES {
            Ok(Seq::empty())
        } else {
            match null_found(table, column, i, row::scan_views(rows@)) {
                Some(e) => Err(e),
                None => Ok(Seq::empty()),
            }
        },
    }
}

/// What an action does to the rows on disk, before the catalog changes.
pub open spec fn row_effects(
    db: Seq<char>,
    table: Seq<char>,
    columns: Seq<ColumnView>,
    action: AlterTableAction,
    heap: HeapState,
) -> Result<Seq<EffectView>, ErrorView> {
    let old = catalog::schema_of(columns);
    match action {
        AlterTableAction::AddColumn { column_def } => rewrite(
            db,
            table,
            "backfill"@,
            RowChange::AppendNull,
            old,
            old.push(datatype::parsed_type(column_def.data_type@)->Ok_0),
            heap,
        ),
        AlterTableAction::DropColumn { column } => {
            let i = catalog::column_index(columns, column@)->0;
            rewrite(
                db,
                table,
                "drop-column backfill"@,
                RowChange::Remove(i as usize),
                old,
                old.remove(i),
                heap,
            )
        },
        AlterTableAction::SetNotNull { column } => validated(
            table,
            column@,
            catalog::column_index(columns, column@)->0,
            heap,
        ),
        _ => Ok(Seq::empty()),
    }
}

/// The upkeep of the stored constraints of a column that goes or is renamed.
pub open spec fn constraint_effects(
    db: Seq<char>,
    table: Seq<char>,
    action: AlterTableAction,
) -> Seq<EffectView> {
    match action {
        AlterTableAction::DropColumn { column } => seq![
            EffectView::DeleteColumnConstraints {
                db,
                table,
                column: column@,
                warning:
                    "[AlterTable] Warning: failed to clean up constraint metadata for column '"@
                    + column@ + "': "@,
            },
        ],
        AlterTableAction::RenameColumn { old_name, new_name } => seq![
            EffectView::RenameColumnInConstraints {
                db,
                table,
                from: old_name@,
                to: new_name@,
                warning:
                    "[AlterTable] Warning: failed to update constraint metadata for column rename '"@
                    + old_name@ + "' → '"@ + new_name@ + "': "@,
            },
        ],
        _ => Seq::empty(),
    }
}

/// The last effects of an action on a table's columns.
pub open spec fn store_table(
    db: Seq<char>,
    table: Seq<char>,
    columns: Seq<ColumnView>,
    action_text: Seq<char>,
) -> Seq<EffectView> {
    seq![
        EffectView::Edit { edit: EditView::PutTable { db, name: table, table: columns } },
        EffectView::SaveCatalog {
            warning: Some(
                "[AlterTable] Warning: failed to save catalog after altering table '"@ + table
                    + "': "@,
            ),
        },
        EffectView::Print { text: "Altered table '"@ + table + "': "@ + action_text + "."@ },
    ]
}

/// `ALTER TABLE .. RENAME TO`.
pub open spec fn rename_table(
    c: Map<Seq<char>, DatabaseView>,
    db: Seq<char>,
    table: Seq<char>,
    new_name: Seq<char>,
) -> Result<Seq<EffectView>, ErrorView> {
    let from = files::heap_file(db, table);
    let to = files::heap_file(db, new_name);
    if c[db].tables.contains_key(new_name) {
        Err(
            errors::error(
                ErrorKind::AlreadyExists,
                "Table '"@ + new_name + "' already exists"@,
            ),
        )
    } else {
        Ok(
            seq![
                EffectView::RenameFile { from, to },
                EffectView::RenameFile { from: files::fsm_file(from), to: files::fsm_file(to) },
                EffectView::RenameIndexFiles { db, from: table, to: new_name },
                EffectView::Edit { edit: EditView::DropTable { db, name: table } },
                EffectView::Edit {
                    edit: EditView::PutTable { db, name: new_name, table: c[db].tables[table] },
                },
                EffectView::SaveCatalog {
                    warning: Some(
                        "[AlterTable] Warning: failed to save catalog after renaming table '"@
                            + table + "' → '"@ + new_name + "': "@,
                    ),
                },
                EffectView::Print {
                    text: "Renamed table '"@ + table + "' to '"@ + new_name + "'."@,
                },
            ],
        )
    }
}

/// What `ALTER TABLE` does. `action_text` is the action as the confirmation shows it.
pub open spec fn alter_table(
    c: Map<Seq<char>, DatabaseView>,
    db: Seq<char>,
    table: Seq<char>,
    action: AlterTableAction,
    action_text: Seq<char>,
    heap: HeapState,
) -> Result<Seq<EffectView>, ErrorView> {
    if !c.contains_key(db) {
        Err(tables::no_database(db))
    } else if !c[db].tables.contains_key(table) {
        Err(errors::error(ErrorKind::NotFound, "Table '"@ + table + "' not found"@))
    } else {
        match action {
            AlterTableAction::RenameTable { new_name } => rename_table(c, db, table, new_name@),
            _ => {
                let columns = c[db].tables[table];
                match altered_columns(table, columns, action) {
                    Err(e) => Err(e),
                    Ok(new_columns) => match row_effects(db, table, columns, action, heap) {
                        Err(e) => Err(e),
                        Ok(first) => Ok(
                            first + constraint_effects(db, table, action) + store_table(
                                db,
                                table,
                                new_columns,
                                action_text,
                            ),
                        ),
                    },
                }
            },
        }
    }
}

/// The action rewrites the rows of the heap file.
pub open spec fn rewrites(action: AlterTableAction) -> bool {
    action is AddColumn || action is DropColumn
}

/// Whether the action must look at the rows of the heap file.
pub fn needs_heap(action: &AlterTableAction) -> (r: bool)
    ensures
        r == (rewrites(*action) || *action is SetNotNull),
{
    match action {
        AlterTableAction::AddColumn { .. } => true,
        AlterTableAction::DropColumn { .. } => true,
        AlterTableAction::SetNotNull { .. } => true,
        _ => false,
    }
}

fn missing_column(table: &str, column: &str) -> (r: DbError)
    ensures
        r@ == no_column(table@, column@),
{
    let message = text::cat5("Column '", column, "' not found in table '", table, "'");
    DbError { kind: ErrorKind::NotFound, message }
}

/// The view of a table's new shape.
pub open spec fn table_outcome(r: Result<Table, DbError>) -> Result<Seq<ColumnView>, ErrorView> {
    match r {
        Ok(t) => Ok(t@),
        Err(e) => Err(e@),
    }
}

/// A column after an action that changes it in place.
fn alter_column(column: &Column, action: &AlterTableAction) -> (r: Column)
    ensures
        r@ == altered_column(column@, *action),
{
    let mut c = column.copy();
    match action {
        AlterTableAction::RenameColumn { new_name, .. } => {
            c.name = new_name.clone();
        },
        AlterTableAction::SetDefault { default_expr, .. } => {
            c.constraints.default = parse_literal(c.data_type, default_expr.as_str());
        },
        AlterTableAction::DropDefault { .. } => {
            c.constraints.default = None;
        },
        AlterTableAction::SetNotNull { .. } => {
            c.nullable = false;
            c.constraints.not_null = true;
        },
        AlterTableAction::DropNotNull { .. } => {
            c.nullable = true;
            c.constraints.not_null = false;
        },
        _ => {},
    }
    c
}

/// A table after the action, or why it is refused.
pub fn alter_columns(name: &str, table: &Table, action: &AlterTableAction) -> (r: Result<
    Table,
    DbError,
>)
    ensures
        table_outcome(r) == altered_columns(name@, table@, *action),
{
    let mut t = table.copy();
    assert(t.columns@.len() == t@.len());
    let column = match action {
        AlterTableAction::RenameTable { .. } => {
            return Ok(t);
        },
        AlterTableAction::AddColumn { column_def } => {
            let ty = match parse_type(column_def.data_type.as_str()) {
                Ok(ty) => ty,
                Err(e) => {
                    let message = text::cat2("Invalid data type: ", e.as_str());
                    return Err(DbError { kind: ErrorKind::InvalidInput, message });
                },
            };
            if t.column_position(column_def.name.as_str()).is_some() {
                let message = text::cat5(
                    "Column '",
                    column_def.name.as_str(),
                    "' already exists in table '",
                    name,
                    "'",
                );
                return Err(DbError { kind: ErrorKind::AlreadyExists, message });
            }
            t.columns.push(Column::new(column_def.name.clone(), ty));
            assert(t@ =~= table@.push(catalog::plain_column(column_def.name@, ty)));
            return Ok(t);
        },
        AlterTableAction::DropColumn { column } => column,
        AlterTableAction::RenameColumn { old_name, .. } => old_name,
        AlterTableAction::SetDefault { column, .. } => column,
        AlterTableAction::DropDefault { column } => column,
        AlterTableAction::SetNotNull { column } => column,
        AlterTableAction::DropNotNull { column } => column,
    };
    assert(subject(*action) == Some(column@));
    match t.column_position(column.as_str()) {
        None => Err(missing_column(name, column.as_str())),
        Some(i) => {
            if let AlterTableAction::DropColumn { .. } = action {
                let _ = t.columns.remove(i);
                assert(t@ =~= table@.remove(i as int));
            } else {
                let c = alter_column(&t.columns[i], action);
                let ghost cv = c@;
                t.columns[i] = c;
                assert(t@ =~= table@.update(i as int, cv));
            }
            Ok(t)
        },
    }
}

/// The plan starts by writing rows that read as the scanned ones do, with the change made.
pub open spec fn rewritten_faithfully(
    plan: Seq<EffectView>,
    change: RowChange,
    old: Seq<ColumnType>,
    new: Seq<ColumnType>,
    scan: Seq<Result<Seq<u8>, ErrorView>>,
) -> bool {
    &&& plan.len() > 0
    &&& plan[0] is WriteHeap
    &&& row::faithful(change, old, new, scan, plan[0]->WriteHeap_rows)
}

/// The heap file's rows can be rewritten: there is none, or all its rows are there and decode.
pub open spec fn rewritable(heap: HeapState, schema: Seq<ColumnType>) -> bool {
    match heap {
        HeapState::Missing => true,
        HeapState::OpenFailed(_) => false,
        HeapState::Open { rows, .. } => row::scan_decodes(schema, row::scan_views(rows@)),
    }
}

/// A column can be added or dropped: the table is there, the change suits its columns, and its
/// rows can be rewritten.
pub open spec fn can_rewrite(
    c: Map<Seq<char>, DatabaseView>,
    db: Seq<char>,
    table: Seq<char>,
    action: AlterTableAction,
    heap: HeapState,
) -> bool {
    &&& catalog::has_table(c, db, table)
    &&& altered_columns(table, c[db].tables[table], action) is Ok
    &&& rewritable(heap, catalog::schema_of(c[db].tables[table]))
}

/// Plans the rewrite of a heap file.
fn rewrite_heap(
    db: &str,
    table: &str,
    task: &str,
    change: RowChange,
    old_schema: &Vec<ColumnType>,
    new_schema: &Vec<ColumnType>,
    heap: &HeapState,
) -> (r: Result<Vec<Effect>, DbError>)
    requires
        row::schema_change(change, old_schema@, new_schema@),
        heap matches HeapState::Open { rows, .. } ==> row::scan_readable(old_schema@, rows@),
    ensures
        effects::outcome(r) == rewrite(
            db@,
            table@,
            task@,
            change,
            old_schema@,
            new_schema@,
            *heap,
        ),
        r is Ok <==> rewritable(*heap, old_schema@),
        r is Ok ==> (*heap matches HeapState::Open { rows, .. } ==> rewritten_faithfully(
            effects::shown(r->Ok_0@),
            change,
            old_schema@,
            new_schema@,
            row::scan_views(rows@),
        )),
{
    let mut out: Vec<Effect> = Vec::new();
    match heap {
        HeapState::Missing => {
            assert(effects::shown(out@) =~= Seq::<EffectView>::empty());
            Ok(out)
        },
        HeapState::OpenFailed(e) => {
            let message = text::cat4("Failed to open heap for ", task, ": ", e.as_str());
            Err(DbError { kind: ErrorKind::Other, message })
        },
        HeapState::Open { rows, size } => match migrate_rows(
            change,
            old_schema,
            new_schema,
            task,
            rows,
        ) {
            Err(e) => Err(e),
            Ok(done) => {
                let heap_path = files::heap_path(db, table);
                let tmp = text::cat2(heap_path.as_str(), ".backfill");
                let fsm = files::fsm_path(heap_path.as_str());
                let tmp_fsm = files::fsm_path(tmp.as_str());
                out.push(
                    Effect::WriteHeap {
                        path: tmp.clone(),
                        rows: done,
                        context: text::cat3("Failed to create temp heap for ", task, ": "),
                    },
                );
                out.push(
                    Effect::RemoveFileOrFail {
                        path: heap_path.clone(),
                        context: text::cat3("Failed to remove old heap during ", task, ": "),
                    },
                );
                out.push(Effect::RemoveFile { path: fsm.clone() });
                out.push(
                    Effect::RenameFileOrFail {
                        from: tmp,
                        to: heap_path,
                        context: "Failed to rename backfill heap: ".to_owned(),
                    },
                );
                out.push(Effect::RenameFile { from: tmp_fsm, to: fsm });
                out.push(Effect::RemoveIndexFiles { db: db.to_owned(), table: table.to_owned() });
                assert(effects::shown(out@) =~= swap_heap(
                    db@,
                    table@,
                    task@,
                    effects::row_views(done@),
                ));
                Ok(out)
            },
        },
    }
}

/// Tests the rows of a heap file for `NULL` in column `i`.
fn validate_not_null(table: &str, column: &str, i: usize, heap: &HeapState) -> (r: Result<
    Vec<Effect>,
    DbError,
>)
    ensures
        effects::outcome(r) == validated(table@, column@, i as int, *heap),
{
    let out: Vec<Effect> = Vec::new();
    assert(effects::shown(out@) =~= Seq::<EffectView>::empty());
    match heap {
        HeapState::Missing => Ok(out),
        HeapState::OpenFailed(e) => {
            let message = text::cat2(
                "Failed to open heap for SET NOT NULL validation: ",
                e.as_str(),
            );
            Err(DbError { kind: ErrorKind::Other, message })
        },
        HeapState::Open { rows, size } => {
            if let Some(n) = size {
                if *n <= HEADER_PAGE_BYTES {
                    return Ok(out);
                }
            }
            let ghost all = row::scan_views(rows@);
            let mut k: usize = 0;
            assert(all.skip(0) =~= all);
            while k < rows.len()
                invariant
                    k <= rows.len(),
                    all == row::scan_views(rows@),
                    null_found(table@, column@, i as int, all) == null_found(
                        table@,
                        column@,
                        i as int,
                        all.skip(k as int),
                    ),
                    *heap == (HeapState::Open { rows: *rows, size: *size }),
                    !(size is Some && size->0 <= HEADER_PAGE_BYTES),
                decreases rows.len() - k,
            {
                assert(all.skip(k as int)[0] == row::scan_view(rows@[k as int]));
                assert(all.skip(k as int).drop_first() =~= all.skip(k + 1));
                match &rows[k] {
                    Err(e) => {
                        return Err(DbError { kind: e.kind, message: e.message.clone() });
                    },
                    Ok(bytes) => {
                        if column_is_null(bytes, i) {
                            let message = text::cat5(
                                "Table '",
                                table,
                                "' contains NULL values in column '",
                                column,
                                "'; cannot alter to NOT NULL",
                            );
                            return Err(DbError { kind: ErrorKind::InvalidInput, message });
                        }
                    },
                }
                k = k + 1;
            }
            Ok(out)
        },
    }
}

/// Plans `ALTER TABLE`. `action_text` is the action as the confirmation shows it, `heap` the
/// table's heap file as found.
///
/// The storage engine does not test the offsets inside a stored row, so the rows of a heap file
/// that is to be rewritten must be readable.
pub fn execute_alter_table(
    catalog: &Catalog,
    db: &str,
    alter: &AlterTablePlan,
    action_text: &str,
    heap: &HeapState,
) -> (r: Result<Vec<Effect>, DbError>)
    requires
        rewrites(alter.action) && catalog::has_table(catalog@, db@, alter.table@) ==> (
        *heap matches HeapState::Open { rows, .. } ==> row::scan_readable(
            catalog::schema_of(catalog@[db@].tables[alter.table@]),
            rows@,
        )),
    ensures
        effects::outcome(r) == alter_table(
            catalog@,
            db@,
            alter.table@,
            alter.action,
            action_text@,
            *heap,
        ),
        // a column is added or dropped exactly where that can be done
        rewrites(alter.action) ==> (r is Ok <==> can_rewrite(
            catalog@,
            db@,
            alter.table@,
            alter.action,
            *heap,
        )),
        // what is written reads back as what was there: `NULL` in an added column, every other
        // value as it was, and nothing of a dropped column
        r is Ok && alter.action is AddColumn ==> (*heap matches HeapState::Open { rows, .. }
            ==> rewritten_faithfully(
            effects::shown(r->Ok_0@),
            RowChange::AppendNull,
            catalog::schema_of(catalog@[db@].tables[alter.table@]),
            catalog::schema_of(
                altered_columns(
                    alter.table@,
                    catalog@[db@].tables[alter.table@],
                    alter.action,
                )->Ok_0,
            ),
            row::scan_views(rows@),
        )),
        r is Ok ==> (alter.action matches AlterTableAction::DropColumn { column } ==> (*heap
            matches HeapState::Open { rows, .. } ==> rewritten_faithfully(
            effects::shown(r->Ok_0@),
            RowChange::Remove(
                catalog::column_index(catalog@[db@].tables[alter.table@], column@)->0 as usize,
            ),
            catalog::schema_of(catalog@[db@].tables[alter.table@]),
            catalog::schema_of(
                altered_columns(
                    alter.table@,
                    catalog@[db@].tables[alter.table@],
                    alter.action,
                )->Ok_0,
            ),
            row::scan_views(rows@),
        ))),
{
    let name = alter.table.as_str();
    if !catalog.databases.contains_key(db) {
        let message = text::cat3("Database '", db, "' not found");
        return Err(DbError { kind: ErrorKind::NotFound, message });
    }
    let table = match catalog.table(db, name) {
        Some(t) => t,
        None => {
            let message = text::cat3("Table '", name, "' not found");
            return Err(DbError { kind: ErrorKind::NotFound, message });
        },
    };
    if let AlterTableAction::RenameTable { new_name } = &alter.action {
        return execute_rename_table(catalog, db, name, new_name.as_str());
    }
    let new_table = match alter_columns(name, table, &alter.action) {
        Ok(t) => t,
        Err(e) => {
            return Err(e);
        },
    };
    let old_schema = table.schema();
    let new_schema = new_table.schema();
    let first = match &alter.action {
        AlterTableAction::AddColumn { column_def } => {
            assert(new_schema@ =~= old_schema@.push(
                datatype::parsed_type(column_def.data_type@)->Ok_0,
            ));
            assert(new_schema@.drop_last() =~= old_schema@);
            rewrite_heap(
                db,
                name,
                "backfill",
                RowChange::AppendNull,
                &old_schema,
                &new_schema,
                heap,
            )
        },
        AlterTableAction::DropColumn { column } => {
            let i: usize = match table.column_position(column.as_str()) {
                Some(i) => i,
                None => {
                    return Err(missing_column(name, column.as_str()));
                },
            };
            assert(new_schema@ =~= old_schema@.remove(i as int));
            rewrite_heap(
                db,
                name,
                "drop-column backfill",
                RowChange::Remove(i),
                &old_schema,
                &new_schema,
                heap,
            )
        },
        AlterTableAction::SetNotNull { column } => {
            let i: usize = match table.column_position(column.as_str()) {
                Some(i) => i,
                None => {
                    return Err(missing_column(name, column.as_str()));
                },
            };
            validate_not_null(name, column.as_str(), i, heap)
        },
        _ => {
            let none: Vec<Effect> = Vec::new();
            assert(effects::shown(none@) =~= Seq::<EffectView>::empty());
            Ok(none)
        },
    };
    let mut out = match first {
        Ok(out) => out,
        Err(e) => {
            return Err(e);
        },
    };
    let ghost head = effects::shown(out@);
    push_constraint_effects(&mut out, db, name, &alter.action);
    let ghost columns = new_table@;
    out.push(
        Effect::Edit {
            edit: CatalogEdit::PutTable {
                db: db.to_owned(),
                name: name.to_owned(),
                table: new_table,
            },
        },
    );
    out.push(
        Effect::SaveCatalog {
            warning: Some(
                text::cat3(
                    "[AlterTable] Warning: failed to save catalog after altering table '",
                    name,
                    "': ",
                ),
            ),
        },
    );
    out.push(Effect::Print { text: text::cat5("Altered table '", name, "': ", action_text, ".") });
    assert(effects::shown(out@) =~= head + constraint_effects(db@, name@, alter.action)
        + store_table(db@, name@, columns, action_text@));
    Ok(out)
}

fn push_constraint_effects(out: &mut Vec<Effect>, db: &str, table: &str, action: &AlterTableAction)
    ensures
        effects::shown(final(out)@) == effects::shown(old(out)@) + constraint_effects(
            db@,
            table@,
            *action,
        ),
{
    match action {
        AlterTableAction::DropColumn { column } => {
            out.push(
                Effect::DeleteColumnConstraints {
                    db: db.to_owned(),
                    table: table.to_owned(),
                    column: column.clone(),
                    warning: text::cat3(
                        "[AlterTable] Warning: failed to clean up constraint metadata for column '",
                        column.as_str(),
                        "': ",
                    ),
                },
            );
        },
        AlterTableAction::RenameColumn { old_name, new_name } => {
            out.push(
                Effect::RenameColumnInConstraints {
                    db: db.to_owned(),
                    table: table.to_owned(),
                    from: old_name.clone(),
                    to: new_name.clone(),
                    warning: text::cat5(
                        "[AlterTable] Warning: failed to update constraint metadata for column rename '",
                        old_name.as_str(),
                        "' → '",
                        new_name.as_str(),
                        "': ",
                    ),
                },
            );
        },
        _ => {},
    }
    assert(effects::shown(out@) =~= effects::shown(old(out)@) + constraint_effects(
        db@,
        table@,
        *action,
    ));
}

fn execute_rename_table(catalog: &Catalog, db: &str, table: &str, new_name: &str) -> (r: Result<
    Vec<Effect>,
    DbError,
>)
    requires
        catalog::has_table(catalog@, db@, table@),
    ensures
        effects::outcome(r) == rename_table(catalog@, db@, table@, new_name@),
{
    if catalog.table(db, new_name).is_some() {
        let message = text::cat3("Table '", new_name, "' already exists");
        return Err(DbError { kind: ErrorKind::AlreadyExists, message });
    }
    let mut out: Vec<Effect> = Vec::new();
    if let Some(t) = catalog.table(db, table) {
        let from = files::heap_path(db, table);
        let to = files::heap_path(db, new_name);
        let from_fsm = files::fsm_path(from.as_str());
        let to_fsm = files::fsm_path(to.as_str());
        out.push(Effect::RenameFile { from, to });
        out.push(Effect::RenameFile { from: from_fsm, to: to_fsm });
        out.push(
            Effect::RenameIndexFiles {
                db: db.to_owned(),
                from: table.to_owned(),
                to: new_name.to_owned(),
            },
        );
        out.push(
            Effect::Edit {
                edit: CatalogEdit::DropTable { db: db.to_owned(), name: table.to_owned() },
            },
        );
        out.push(
            Effect::Edit {
                edit: CatalogEdit::PutTable {
                    db: db.to_owned(),
                    name: new_name.to_owned(),
                    table: t.copy(),
                },
            },
        );
        out.push(
            Effect::SaveCatalog {
                warning: Some(
                    text::cat5(
                        "[AlterTable] Warning: failed to save catalog after renaming table '",
                        table,
                        "' → '",
                        new_name,
                        "': ",
                    ),
                ),
            },
        );
        out.push(
            Effect::Print { text: text::cat5("Renamed table '", table, "' to '", new_name, "'.") },
        );
    }
    assert(effects::shown(out@) =~= rename_table(catalog@, db@, table@, new_name@)->Ok_0);
    Ok(out)
}

proof fn lemma_index_of_push(columns: Seq<ColumnView>, c: ColumnView, name: Seq<char>)
    requires
        catalog::column_index(columns, name) is None,
        text::same_fold(c.name, name),
    ensures
        catalog::column_index(columns.push(c), name) == Some(columns.len() as int),
    decreases columns.len(),
{
    if columns.len() > 0 {
        catalog::lemma_column_index(columns, name);
        assert(columns.push(c).drop_first() =~= columns.drop_first().push(c));
        assert(columns.push(c)[0] == columns[0]);
        lemma_index_of_push(columns.drop_first(), c, name);
    } else {
        assert(columns.push(c)[0] == c);
    }
}

/// Dropping a column that was just added gives the table its columns back, and every row its
/// values.
pub proof fn law_drop_column_undoes_add_column(
    table: Seq<char>,
    columns: Seq<ColumnView>,
    column_def: ColumnDef,
    column: String,
    values: Seq<Option<storage_manager::types::DataValue>>,
)
    requires
        column@ == column_def.name@,
        altered_columns(table, columns, AlterTableAction::AddColumn { column_def }) is Ok,
        values.len() == columns.len(),
        values.len() <= usize::MAX,
    ensures
        ({
            let more = altered_columns(table, columns, AlterTableAction::AddColumn { column_def });
            &&& altered_columns(table, more->Ok_0, AlterTableAction::DropColumn { column }) == Ok::<
                Seq<ColumnView>,
                ErrorView,
            >(columns)
            &&& row::changed(
                RowChange::Remove(columns.len() as usize),
                row::changed(RowChange::AppendNull, values),
            ) == values
        }),
{
    let ty = datatype::parsed_type(column_def.data_type@)->Ok_0;
    let c = catalog::plain_column(column_def.name@, ty);
    lemma_index_of_push(columns, c, column@);
    assert(columns.push(c).remove(columns.len() as int) =~= columns);
    assert(values.push(None).remove(values.len() as int) =~= values);
}

proof fn lemma_index_of_update(columns: Seq<ColumnView>, i: int, c: ColumnView, name: Seq<char>)
    requires
        0 <= i < columns.len(),
        catalog::column_index(columns, name) is None,
        text::same_fold(c.name, name),
    ensures
        catalog::column_index(columns.update(i, c), name) == Some(i),
    decreases columns.len(),
{
    catalog::lemma_column_index(columns, name);
    if i > 0 {
        assert(columns.update(i, c).drop_first() =~= columns.drop_first().update(i - 1, c));
        assert(columns.update(i, c)[0] == columns[0]);
        lemma_index_of_update(columns.drop_first(), i - 1, c, name);
    }
}

/// A renamed column is found under its new name, and renaming it back gives the table its
/// columns back.
pub proof fn law_rename_column_can_be_undone(
    table: Seq<char>,
    columns: Seq<ColumnView>,
    old_name: String,
    new_name: String,
    i: int,
)
    requires
        catalog::column_index(columns, old_name@) == Some(i),
        columns[i].name == old_name@,
        catalog::column_index(columns, new_name@) is None,
    ensures
        ({
            let there = altered_columns(
                table,
                columns,
                AlterTableAction::RenameColumn { old_name, new_name },
            );
            &&& there is Ok
            &&& catalog::column_index(there->Ok_0, new_name@) == Some(i)
            &&& altered_columns(
                table,
                there->Ok_0,
                AlterTableAction::RenameColumn { old_name: new_name, new_name: old_name },
            ) == Ok::<Seq<ColumnView>, ErrorView>(columns)
        }),
{
    catalog::lemma_column_index(columns, old_name@);
    let c = ColumnView { name: new_name@, ..columns[i] };
    lemma_index_of_update(columns, i, c, new_name@);
    let there = columns.update(i, c);
    assert(there.update(i, ColumnView { name: old_name@, ..there[i] }) =~= columns);
}

/// `SET NOT NULL` and `DROP NOT NULL` are each other's undoing on a column's own flags, and
/// touch nothing else of it.
pub proof fn law_not_null_toggles(c: ColumnView, column: String)
    requires
        c.nullable == !c.not_null,
    ensures
        altered_column(
            altered_column(c, AlterTableAction::SetNotNull { column }),
            AlterTableAction::DropNotNull { column },
        ) == (ColumnView { nullable: true, not_null: false, ..c }),
        !altered_column(c, AlterTableAction::SetNotNull { column }).nullable,
        c.nullable ==> altered_column(
            altered_column(c, AlterTableAction::SetNotNull { column }),
            AlterTableAction::DropNotNull { column },
        ) == c,
{
}

/// `SET NOT NULL` finds a fault exactly where the scan fails or a scanned row has `NULL` in the
/// column.
pub proof fn law_not_null_is_validated(
    table: Seq<char>,
    column: Seq<char>,
    i: int,
    rows: Seq<Result<Seq<u8>, ErrorView>>,
)
    ensures
        null_found(table, column, i, rows) is None <==> forall|k: int|
            0 <= k < rows.len() ==> (#[trigger] rows[k]) is Ok && !row::null_in_row(
                rows[k]->Ok_0,
                i,
            ),
    decreases rows.len(),
{
    if rows.len() > 0 {
        let rest = rows.drop_first();
        law_not_null_is_validated(table, column, i, rest);
        assert forall|k: int| 0 < k < rows.len() implies #[trigger] rows[k] == rest[k - 1] by {}
        assert forall|k: int| 0 <= k < rest.len() implies #[trigger] rest[k] == rows[k + 1] by {}
        if null_found(table, column, i, rows) is None {
            assert forall|k: int| 0 <= k < rows.len() implies (#[trigger] rows[k]) is Ok
                && !row::null_in_row(rows[k]->Ok_0, i) by {
                if k > 0 {
                    assert(rest[k - 1] is Ok);
                }
            }
        }
        if forall|k: int|
            0 <= k < rows.len() ==> (#[trigger] rows[k]) is Ok && !row::null_in_row(
                rows[k]->Ok_0,
                i,
            ) {
            assert(rows[0] is Ok);
            assert forall|k: int| 0 <= k < rest.len() implies (#[trigger] rest[k]) is Ok
                && !row::null_in_row(rest[k]->Ok_0, i) by {
                assert(rows[k + 1] is Ok);
            }
        }
    }
}

/// A column added to a table with rows cannot be made `NOT NULL` as it stands: the first
/// rewritten row has `NULL` there.
pub proof fn law_added_column_is_not_not_null(
    table: Seq<char>,
    column: Seq<char>,
    old: Seq<ColumnType>,
    new: Seq<ColumnType>,
    before: Seq<Result<Seq<u8>, ErrorView>>,
    after: Seq<Seq<u8>>,
)
    requires
        row::faithful(RowChange::AppendNull, old, new, before, after),
        after.len() > 0,
        new.len() <= 0xffff,
        after[0].len() <= 0xffff,
    ensures
        null_found(
            table,
            column,
            old.len() as int,
            after.map_values(|b: Seq<u8>| Ok::<Seq<u8>, ErrorView>(b)),
        ) is Some,
{
    let rows = after.map_values(|b: Seq<u8>| Ok::<Seq<u8>, ErrorView>(b));
    assert(rows[0] == Ok::<Seq<u8>, ErrorView>(after[0]));
    assert(row::null_in_row(after[0], old.len() as int));
    law_not_null_is_validated(table, column, old.len() as int, rows);
}

/// An action on a table's columns changes the catalog in one place: the columns of that table.
pub proof fn law_alter_changes_one_table(
    c: Map<Seq<char>, DatabaseView>,
    db: Seq<char>,
    table: Seq<char>,
    action: AlterTableAction,
    action_text: Seq<char>,
    heap: HeapState,
)
    requires
        !(action is RenameTable),
        alter_table(c, db, table, action, action_text, heap) is Ok,
    ensures
        effects::after(c, alter_table(c, db, table, action, action_text, heap)->Ok_0) == c.insert(
            db,
            DatabaseView {
                tables: c[db].tables.insert(
                    table,
                    altered_columns(table, c[db].tables[table], action)->Ok_0,
                ),
                ..c[db]
            },
        ),
{
    let plan = alter_table(c, db, table, action, action_text, heap)->Ok_0;
    let columns = c[db].tables[table];
    let new_columns = altered_columns(table, columns, action)->Ok_0;
    let first = row_effects(db, table, columns, action, heap)->Ok_0;
    let middle = constraint_effects(db, table, action);
    let last = store_table(db, table, new_columns, action_text);
    assert(plan == first + middle + last);
    effects::lemma_after_concat(c, first + middle, last);
    effects::lemma_after_no_edit(c, first + middle);
    let edit = seq![last[0]];
    let rest = last.skip(1);
    assert(last =~= edit + rest);
    effects::lemma_after_concat(c, edit, rest);
    assert(edit.drop_last() =~= Seq::<EffectView>::empty());
    reveal_with_fuel(effects::after, 2);
    effects::lemma_after_no_edit(effects::after(c, edit), rest);
}

/// A renamed table keeps its columns, its old name is free, and nothing else changes.
pub proof fn law_rename_table_moves_it(
    c: Map<Seq<char>, DatabaseView>,
    db: Seq<char>,
    table: Seq<char>,
    new_name: Seq<char>,
)
    requires
        catalog::has_table(c, db, table),
        rename_table(c, db, table, new_name) is Ok,
    ensures
        effects::after(c, rename_table(c, db, table, new_name)->Ok_0) == c.insert(
            db,
            DatabaseView {
                tables: c[db].tables.remove(table).insert(new_name, c[db].tables[table]),
                ..c[db]
            },
        ),
        table != new_name,
{
    let plan = rename_table(c, db, table, new_name)->Ok_0;
    let first = plan.take(3);
    let drops = seq![plan[3]];
    let puts = seq![plan[4]];
    let last = plan.skip(5);
    assert(plan =~= first + drops + puts + last);
    effects::lemma_after_concat(c, first + drops + puts, last);
    effects::lemma_after_concat(c, first + drops, puts);
    effects::lemma_after_concat(c, first, drops);
    effects::lemma_after_no_edit(c, first);
    assert(drops.drop_last() =~= Seq::<EffectView>::empty());
    assert(puts.drop_last() =~= Seq::<EffectView>::empty());
    reveal_with_fuel(effects::after, 2);
    let mid = effects::after(c, drops);
    let end = effects::after(mid, puts);
    effects::lemma_after_no_edit(end, last);
    assert(end =~= c.insert(
        db,
        DatabaseView {
            tables: c[db].tables.remove(table).insert(new_name, c[db].tables[table]),
            ..c[db]
        },
    ));
}

/// Column `i` is the first that has this name, up to ASCII letter case.
pub open spec fn column_at(columns: Seq<ColumnView>, name: Seq<char>, i: int) -> bool {
    &&& 0 <= i < columns.len()
    &&& text::ascii_lower(columns[i].name) == text::ascii_lower(name)
    &&& forall|j: int|
        0 <= j < i ==> text::ascii_lower((#[trigger] columns[j]).name) != text::ascii_lower(name)
}

/// No column has this name, up to ASCII letter case.
pub open spec fn no_column_at(columns: Seq<ColumnView>, name: Seq<char>) -> bool {
    forall|j: int|
        0 <= j < columns.len() ==> text::ascii_lower((#[trigger] columns[j]).name)
            != text::ascii_lower(name)
}

proof fn lemma_column_at(columns: Seq<ColumnView>, name: Seq<char>, i: int)
    ensures
        column_at(columns, name, i) ==> catalog::column_index(columns, name) == Some(i),
        no_column_at(columns, name) ==> catalog::column_index(columns, name) is None,
{
    catalog::lemma_column_index(columns, name);
    if column_at(columns, name, i) {
        match catalog::column_index(columns, name) {
            Some(k) => {
                assert(text::same_fold(columns[i].name, name));
                if k < i {
                    assert(text::same_fold(columns[k].name, name));
                }
            },
            None => {
                assert(text::same_fold(columns[i].name, name));
            },
        }
    }
    if no_column_at(columns, name) {
        if let Some(k) = catalog::column_index(columns, name) {
            assert(text::same_fold(columns[k].name, name));
        }
    }
}

/// The catalog with other columns for one table.
pub open spec fn with_columns(
    c: Map<Seq<char>, DatabaseView>,
    db: Seq<char>,
    table: Seq<char>,
    columns: Seq<ColumnView>,
) -> Map<Seq<char>, DatabaseView> {
    c.insert(
        db,
        DatabaseView { tables: c[db].tables.insert(table, columns), views: c[db].views },
    )
}

/// After `SET DEFAULT` the column's default is the value that the expression stands for as a value
/// of the column's type, and none where it stands for none, whatever the default was before. All
/// else of the column, and all else in the catalog, is as it was.
pub proof fn law_set_default_sets_the_default(
    c: Map<Seq<char>, DatabaseView>,
    db: Seq<char>,
    table: Seq<char>,
    column: String,
    default_expr: String,
    action_text: Seq<char>,
    heap: HeapState,
    i: int,
)
    requires
        c.contains_key(db),
        c[db].tables.contains_key(table),
        column_at(c[db].tables[table], column@, i),
    ensures
        ({
            let action = AlterTableAction::SetDefault { column, default_expr };
            let result = alter_table(c, db, table, action, action_text, heap);
            let old = c[db].tables[table][i];
            let value = match datatype::encoded_literal(old.data_type, default_expr@) {
                Ok(bytes) => match datatype::decoded_value(old.data_type, bytes) {
                    Ok(v) => Some(v),
                    Err(_) => None,
                },
                Err(_) => None,
            };
            &&& result is Ok
            &&& effects::after(c, result->Ok_0) == with_columns(
                c,
                db,
                table,
                c[db].tables[table].update(
                    i,
                    ColumnView {
                        name: old.name,
                        data_type: old.data_type,
                        nullable: old.nullable,
                        not_null: old.not_null,
                        unique: old.unique,
                        default: value,
                        check: old.check,
                    },
                ),
            )
        }),
{
    lemma_column_at(c[db].tables[table], column@, i);
    let action = AlterTableAction::SetDefault { column, default_expr };
    law_alter_changes_one_table(c, db, table, action, action_text, heap);
}

/// After `DROP DEFAULT` the column has no default; after `RENAME COLUMN` it has the new name; after
/// `DROP NOT NULL` it takes `NULL`. All else of the column, and all else in the catalog, is as it
/// was.
pub proof fn law_column_is_altered_in_place(
    c: Map<Seq<char>, DatabaseView>,
    db: Seq<char>,
    table: Seq<char>,
    column: String,
    new_name: String,
    action_text: Seq<char>,
    heap: HeapState,
    i: int,
)
    requires
        c.contains_key(db),
        c[db].tables.contains_key(table),
        column_at(c[db].tables[table], column@, i),
    ensures
        ({
            let old = c[db].tables[table][i];
            let result = alter_table(
                c,
                db,
                table,
                AlterTableAction::DropDefault { column },
                action_text,
                heap,
            );
            &&& result is Ok
            &&& effects::after(c, result->Ok_0) == with_columns(
                c,
                db,
                table,
                c[db].tables[table].update(
                    i,
                    ColumnView {
                        name: old.name,
                        data_type: old.data_type,
                        nullable: old.nullable,
                        not_null: old.not_null,
                        unique: old.unique,
                        default: None,
                        check: old.check,
                    },
                ),
            )
        }),
        ({
            let old = c[db].tables[table][i];
            let result = alter_table(
                c,
                db,
                table,
                AlterTableAction::RenameColumn { old_name: column, new_name },
                action_text,
                heap,
            );
            &&& result is Ok
            &&& effects::after(c, result->Ok_0) == with_columns(
                c,
                db,
                table,
                c[db].tables[table].update(
                    i,
                    ColumnView {
                        name: new_name@,
                        data_type: old.data_type,
                        nullable: old.nullable,
                        not_null: old.not_null,
                        unique: old.unique,
                        default: old.default,
                        check: old.check,
                    },
                ),
            )
            &&& exists|k: int|
                0 <= k < result->Ok_0.len() && (
                #[trigger] result->Ok_0[k]) is RenameColumnInConstraints
                    && result->Ok_0[k]->RenameColumnInConstraints_db == db
                    && result->Ok_0[k]->RenameColumnInConstraints_table == table
                    && result->Ok_0[k]->RenameColumnInConstraints_from == column@
                    && result->Ok_0[k]->RenameColumnInConstraints_to == new_name@
        }),
        ({
            let old = c[db].tables[table][i];
            let result = alter_table(
                c,
                db,
                table,
                AlterTableAction::DropNotNull { column },
                action_text,
                heap,
            );
            &&& result is Ok
            &&& effects::after(c, result->Ok_0) == with_columns(
                c,
                db,
                table,
                c[db].tables[table].update(
                    i,
                    ColumnView {
                        name: old.name,
                        data_type: old.data_type,
                        nullable: true,
                        not_null: false,
                        unique: old.unique,
                        default: old.default,
                        check: old.check,
                    },
                ),
            )
        }),
{
    lemma_column_at(c[db].tables[table], column@, i);
    let drops = AlterTableAction::DropDefault { column };
    law_alter_changes_one_table(c, db, table, drops, action_text, heap);
    let renames = AlterTableAction::RenameColumn { old_name: column, new_name };
    law_alter_changes_one_table(c, db, table, renames, action_text, heap);
    let plan = alter_table(c, db, table, renames, action_text, heap)->Ok_0;
    assert(plan[0] is RenameColumnInConstraints);
    let allows = AlterTableAction::DropNotNull { column };
    law_alter_changes_one_table(c, db, table, allows, action_text, heap);
}

/// `SET NOT NULL` succeeds exactly where no stored row has `NULL` in the column: there is no heap
/// file, or the file has no data page, or the scan gives every row and none has `NULL` there. The
/// column then takes `NULL` no more, and all else is as it was.
pub proof fn law_set_not_null_needs_rows_without_null(
    c: Map<Seq<char>, DatabaseView>,
    db: Seq<char>,
    table: Seq<char>,
    column: String,
    action_text: Seq<char>,
    heap: HeapState,
    i: int,
)
    requires
        c.contains_key(db),
        c[db].tables.contains_key(table),
        column_at(c[db].tables[table], column@, i),
    ensures
        ({
            let action = AlterTableAction::SetNotNull { column };
            let result = alter_table(c, db, table, action, action_text, heap);
            let old = c[db].tables[table][i];
            &&& result is Ok <==> match heap {
                HeapState::Missing => true,
                HeapState::OpenFailed(_) => false,
                HeapState::Open { rows, size } => (size is Some && size->0 <= 8192) || forall|k: int|
                    0 <= k < rows@.len() ==> (#[trigger] rows@[k]) is Ok && !row::null_in_row(
                        rows@[k]->Ok_0@,
                        i,
                    ),
            }
            &&& result is Ok ==> effects::after(c, result->Ok_0) == with_columns(
                c,
                db,
                table,
                c[db].tables[table].update(
                    i,
                    ColumnView {
                        name: old.name,
                        data_type: old.data_type,
                        nullable: false,
                        not_null: true,
                        unique: old.unique,
                        default: old.default,
                        check: old.check,
                    },
                ),
            )
        }),
{
    lemma_column_at(c[db].tables[table], column@, i);
    let action = AlterTableAction::SetNotNull { column };
    let result = alter_table(c, db, table, action, action_text, heap);
    if result is Ok {
        law_alter_changes_one_table(c, db, table, action, action_text, heap);
    }
    if let HeapState::Open { rows, size } = heap {
        let all = row::scan_views(rows@);
        law_not_null_is_validated(table, column@, i, all);
        assert forall|k: int| 0 <= k < rows@.len() implies #[trigger] all[k] == row::scan_view(
            rows@[k],
        ) by {}
        assert((forall|k: int|
            0 <= k < all.len() ==> (#[trigger] all[k]) is Ok && !row::null_in_row(all[k]->Ok_0, i))
            <==> (forall|k: int|
            0 <= k < rows@.len() ==> (#[trigger] rows@[k]) is Ok && !row::null_in_row(
                rows@[k]->Ok_0@,
                i,
            ))) by {
            if forall|k: int|
                0 <= k < all.len() ==> (#[trigger] all[k]) is Ok && !row::null_in_row(
                    all[k]->Ok_0,
                    i,
                ) {
                assert forall|k: int| 0 <= k < rows@.len() implies (#[trigger] rows@[k]) is Ok
                    && !row::null_in_row(rows@[k]->Ok_0@, i) by {
                    assert(all[k] is Ok);
                }
            }
            if forall|k: int|
                0 <= k < rows@.len() ==> (#[trigger] rows@[k]) is Ok && !row::null_in_row(
                    rows@[k]->Ok_0@,
                    i,
                ) {
                assert forall|k: int| 0 <= k < all.len() implies (#[trigger] all[k]) is Ok
                    && !row::null_in_row(all[k]->Ok_0, i) by {
                    assert(rows@[k] is Ok);
                }
            }
        }
    }
}

/// `ADD COLUMN` puts a column of the given name and type behind the others: it takes `NULL`, and has
/// no default and no constraint. A type that is not known and a name that is taken are refused.
pub proof fn law_add_column_appends_it(
    c: Map<Seq<char>, DatabaseView>,
    db: Seq<char>,
    table: Seq<char>,
    column_def: ColumnDef,
    action_text: Seq<char>,
    heap: HeapState,
    i: int,
)
    requires
        c.contains_key(db),
        c[db].tables.contains_key(table),
    ensures
        ({
            let action = AlterTableAction::AddColumn { column_def };
            let result = alter_table(c, db, table, action, action_text, heap);
            let columns = c[db].tables[table];
            let ty = datatype::parsed_type(column_def.data_type@);
            &&& ty is Err ==> result == Err::<Seq<EffectView>, ErrorView>(
                ErrorView {
                    kind: ErrorKind::InvalidInput,
                    message: "Invalid data type: "@ + ty->Err_0,
                },
            )
            &&& ty is Ok && column_at(columns, column_def.name@, i) ==> result == Err::<
                Seq<EffectView>,
                ErrorView,
            >(
                ErrorView {
                    kind: ErrorKind::AlreadyExists,
                    message: "Column '"@ + column_def.name@ + "' already exists in table '"@ + table
                        + "'"@,
                },
            )
            &&& ty is Ok && no_column_at(columns, column_def.name@) && heap is Missing ==> result is Ok
            &&& result is Ok ==> effects::after(c, result->Ok_0) == with_columns(
                c,
                db,
                table,
                columns.push(
                    ColumnView {
                        name: column_def.name@,
                        data_type: ty->Ok_0,
                        nullable: true,
                        not_null: false,
                        unique: false,
                        default: None,
                        check: None,
                    },
                ),
            )
        }),
{
    let columns = c[db].tables[table];
    lemma_column_at(columns, column_def.name@, i);
    let action = AlterTableAction::AddColumn { column_def };
    if alter_table(c, db, table, action, action_text, heap) is Ok {
        law_alter_changes_one_table(c, db, table, action, action_text, heap);
    }
}

/// `DROP COLUMN` takes the named column out, and leaves the others as they were, in their order;
/// the stored constraints of the column go with it.
pub proof fn law_drop_column_takes_it_out(
    c: Map<Seq<char>, DatabaseView>,
    db: Seq<char>,
    table: Seq<char>,
    column: String,
    action_text: Seq<char>,
    heap: HeapState,
    i: int,
)
    requires
        c.contains_key(db),
        c[db].tables.contains_key(table),
        column_at(c[db].tables[table], column@, i),
    ensures
        ({
            let action = AlterTableAction::DropColumn { column };
            let result = alter_table(c, db, table, action, action_text, heap);
            let columns = c[db].tables[table];
            &&& heap is Missing ==> result is Ok
            &&& result is Ok ==> effects::after(c, result->Ok_0) == with_columns(
                c,
                db,
                table,
                columns.take(i) + columns.skip(i + 1),
            )
            &&& result is Ok ==> exists|k: int|
                0 <= k < result->Ok_0.len() && (
                #[trigger] result->Ok_0[k]) is DeleteColumnConstraints
                    && result->Ok_0[k]->DeleteColumnConstraints_db == db
                    && result->Ok_0[k]->DeleteColumnConstraints_table == table
                    && result->Ok_0[k]->DeleteColumnConstraints_column == column@
        }),
{
    let columns = c[db].tables[table];
    lemma_column_at(columns, column@, i);
    let action = AlterTableAction::DropColumn { column };
    let result = alter_table(c, db, table, action, action_text, heap);
    assert(columns.remove(i) =~= columns.take(i) + columns.skip(i + 1));
    if result is Ok {
        law_alter_changes_one_table(c, db, table, action, action_text, heap);
        let first = row_effects(db, table, columns, action, heap)->Ok_0;
        assert(result->Ok_0[first.len() as int] is DeleteColumnConstraints);
    }
}

/// What is not there is not altered: a missing database, table or column is reported as such.
pub proof fn law_missing_is_not_altered(
    c: Map<Seq<char>, DatabaseView>,
    db: Seq<char>,
    table: Seq<char>,
    action: AlterTableAction,
    column: String,
    other: String,
    action_text: Seq<char>,
    heap: HeapState,
)
    ensures
        !c.contains_key(db) ==> alter_table(c, db, table, action, action_text, heap) == Err::<
            Seq<EffectView>,
            ErrorView,
        >(ErrorView { kind: ErrorKind::NotFound, message: "Database '"@ + db + "' not found"@ }),
        c.contains_key(db) && !c[db].tables.contains_key(table) ==> alter_table(
            c,
            db,
            table,
            action,
            action_text,
            heap,
        ) == Err::<Seq<EffectView>, ErrorView>(
            ErrorView { kind: ErrorKind::NotFound, message: "Table '"@ + table + "' not found"@ },
        ),
        c.contains_key(db) && c[db].tables.contains_key(table) && no_column_at(
            c[db].tables[table],
            column@,
        ) && (action == (AlterTableAction::DropColumn { column }) || action == (
        AlterTableAction::RenameColumn { old_name: column, new_name: other }) || action == (
        AlterTableAction::SetDefault { column, default_expr: other }) || action == (
        AlterTableAction::DropDefault { column }) || action == (AlterTableAction::SetNotNull {
            column,
        }) || action == (AlterTableAction::DropNotNull { column })) ==> alter_table(
            c,
            db,
            table,
            action,
            action_text,
            heap,
        ) == Err::<Seq<EffectView>, ErrorView>(
            ErrorView {
                kind: ErrorKind::NotFound,
                message: "Column '"@ + column@ + "' not found in table '"@ + table + "'"@,
            },
        ),
{
    if c.contains_key(db) && c[db].tables.contains_key(table) {
        lemma_column_at(c[db].tables[table], column@, 0);
    }
}

/// A renamed table goes to its new name with its heap file, the map of that file's free space and
/// its indexes; a name that is taken is refused.
pub proof fn law_rename_table_takes_its_files_along(
    c: Map<Seq<char>, DatabaseView>,
    db: Seq<char>,
    table: Seq<char>,
    new_name: String,
    action_text: Seq<char>,
    heap: HeapState,
)
    requires
        c.contains_key(db),
        c[db].tables.contains_key(table),
    ensures
        ({
            let action = AlterTableAction::RenameTable { new_name };
            let result = alter_table(c, db, table, action, action_text, heap);
            let plan = result->Ok_0;
            let from = "database/base/"@ + db + "/"@ + table + ".dat"@;
            let to = "database/base/"@ + db + "/"@ + new_name@ + ".dat"@;
            &&& c[db].tables.contains_key(new_name@) ==> result == Err::<Seq<EffectView>, ErrorView>(
                ErrorView {
                    kind: ErrorKind::AlreadyExists,
                    message: "Table '"@ + new_name@ + "' already exists"@,
                },
            )
            &&& !c[db].tables.contains_key(new_name@) ==> {
                &&& result is Ok
                &&& plan.len() == 7
                &&& effects::after(c, plan) == c.insert(
                    db,
                    DatabaseView {
                        tables: c[db].tables.remove(table).insert(
                            new_name@,
                            c[db].tables[table],
                        ),
                        views: c[db].views,
                    },
                )
                &&& plan.contains(EffectView::RenameFile { from, to })
                &&& plan.contains(EffectView::RenameFile { from: from + ".fsm"@, to: to + ".fsm"@ })
                &&& plan.contains(EffectView::RenameIndexFiles { db, from: table, to: new_name@ })
                &&& exists|k: int| 0 <= k < plan.len() && (#[trigger] plan[k]) is SaveCatalog
                &&& plan.last() == (EffectView::Print {
                    text: "Renamed table '"@ + table + "' to '"@ + new_name@ + "'."@,
                })
            }
        }),
{
    if !c[db].tables.contains_key(new_name@) {
        law_rename_table_moves_it(c, db, table, new_name@);
        let plan = rename_table(c, db, table, new_name@)->Ok_0;
        let from = "database/base/"@ + db + "/"@ + table + ".dat"@;
        let to = "database/base/"@ + db + "/"@ + new_name@ + ".dat"@;
        assert(plan[0] == EffectView::RenameFile { from, to });
        assert(plan[1] == EffectView::RenameFile { from: from + ".fsm"@, to: to + ".fsm"@ });
        assert(plan[2] == EffectView::RenameIndexFiles { db, from: table, to: new_name@ });
        assert(plan[5] is SaveCatalog);
    }
}

/// A change of the columns is saved behind the edit, and a line says what was altered.
pub proof fn law_alter_is_saved_and_reported(
    c: Map<Seq<char>, DatabaseView>,
    db: Seq<char>,
    table: Seq<char>,
    action: AlterTableAction,
    action_text: Seq<char>,
    heap: HeapState,
)
    requires
        !(action is RenameTable),
        alter_table(c, db, table, action, action_text, heap) is Ok,
    ensures
        ({
            let plan = alter_table(c, db, table, action, action_text, heap)->Ok_0;
            &&& plan.len() >= 3
            &&& plan[plan.len() - 3] is Edit
            &&& plan[plan.len() - 2] is SaveCatalog
            &&& plan.last() == (EffectView::Print {
                text: "Altered table '"@ + table + "': "@ + action_text + "."@,
            })
        }),
{
}

/// Where the rows of a heap file must change with the columns, every row is rewritten, with `NULL`
/// in an added column or without the value of a dropped one. The new rows are written beside the
/// heap file first; then the file goes, with the map of its free space, and the new one takes its
/// place; the indexes go.
pub proof fn law_stored_rows_follow_the_columns(
    c: Map<Seq<char>, DatabaseView>,
    db: Seq<char>,
    table: Seq<char>,
    action: AlterTableAction,
    action_text: Seq<char>,
    rows: Vec<Result<Vec<u8>, DbError>>,
    size: Option<u64>,
    i: int,
    k: int,
)
    requires
        action is AddColumn || action is DropColumn,
        (action matches AlterTableAction::DropColumn { column } ==> column_at(
            c[db].tables[table],
            column@,
            i,
        ) && i <= usize::MAX),
        alter_table(c, db, table, action, action_text, HeapState::Open { rows, size }) is Ok,
        0 <= k < rows@.len(),
    ensures
        ({
            let heap = HeapState::Open { rows, size };
            let plan = alter_table(c, db, table, action, action_text, heap)->Ok_0;
            let file = "database/base/"@ + db + "/"@ + table + ".dat"@;
            let beside = file + ".backfill"@;
            let old = catalog::schema_of(c[db].tables[table]);
            let values = row::decoded_row(old, rows@[k]->Ok_0@)->Ok_0;
            &&& plan[0] is WriteHeap
            &&& plan[0]->WriteHeap_path == beside
            &&& plan[0]->WriteHeap_rows.len() == rows@.len()
            &&& rows@[k] is Ok
            &&& row::decoded_row(old, rows@[k]->Ok_0@) is Ok
            &&& (action matches AlterTableAction::AddColumn { column_def } ==> row::encoded_row(
                old.push(datatype::parsed_type(column_def.data_type@)->Ok_0),
                values.push(None),
            ) == Ok::<Seq<u8>, Seq<char>>(plan[0]->WriteHeap_rows[k]))
            &&& (action is DropColumn && i < values.len() ==> row::encoded_row(
                old.take(i) + old.skip(i + 1),
                values.take(i) + values.skip(i + 1),
            ) == Ok::<Seq<u8>, Seq<char>>(plan[0]->WriteHeap_rows[k]))
            &&& plan[1] is RemoveFileOrFail
            &&& plan[1]->RemoveFileOrFail_path == file
            &&& plan[2] == (EffectView::RemoveFile { path: file + ".fsm"@ })
            &&& plan[3] is RenameFileOrFail
            &&& plan[3]->RenameFileOrFail_from == beside
            &&& plan[3]->RenameFileOrFail_to == file
            &&& plan[4] == (EffectView::RenameFile { from: beside + ".fsm"@, to: file + ".fsm"@ })
            &&& plan[5] == (EffectView::RemoveIndexFiles { db, table })
        }),
{
    let heap = HeapState::Open { rows, size };
    let columns = c[db].tables[table];
    let old = catalog::schema_of(columns);
    let scan = row::scan_views(rows@);
    assert(scan[k] == row::scan_view(rows@[k]));
    let plan = alter_table(c, db, table, action, action_text, heap)->Ok_0;
    match action {
        AlterTableAction::AddColumn { column_def } => {
            let new = old.push(datatype::parsed_type(column_def.data_type@)->Ok_0);
            row::law_every_row_is_rewritten(RowChange::AppendNull, old, new, "backfill"@, scan);
        },
        AlterTableAction::DropColumn { column } => {
            lemma_column_at(columns, column@, i);
            let new = old.remove(i);
            assert(new =~= old.take(i) + old.skip(i + 1));
            row::law_every_row_is_rewritten(
                RowChange::Remove(i as usize),
                old,
                new,
                "drop-column backfill"@,
                scan,
            );
        },
        _ => {},
    }
    let first = row_effects(db, table, columns, action, heap)->Ok_0;
    assert(first.len() == 6);
    let written = first[0]->WriteHeap_rows;
    let change = if action is AddColumn {
        RowChange::AppendNull
    } else {
        RowChange::Remove(i as usize)
    };
    let new = if let AlterTableAction::AddColumn { column_def } = action {
        old.push(datatype::parsed_type(column_def.data_type@)->Ok_0)
    } else {
        old.remove(i)
    };
    assert(row::becomes(change, old, new, scan[k], written[k]));
    assert(plan[0] == first[0] && plan[1] == first[1] && plan[2] == first[2]);
    assert(plan[3] == first[3] && plan[4] == first[4] && plan[5] == first[5]);
}

/// An action that neither adds nor drops a column leaves the rows on disk alone: no file is written,
/// removed or renamed.
pub proof fn law_other_actions_leave_the_rows(
    c: Map<Seq<char>, DatabaseView>,
    db: Seq<char>,
    table: Seq<char>,
    action: AlterTableAction,
    action_text: Seq<char>,
    heap: HeapState,
)
    requires
        !(action is RenameTable || action is AddColumn || action is DropColumn),
        alter_table(c, db, table, action, action_text, heap) is Ok,
    ensures
        ({
            let plan = alter_table(c, db, table, action, action_text, heap)->Ok_0;
            &&& plan.len() == (if action is RenameColumn {
                4nat
            } else {
                3nat
            })
            &&& action is RenameColumn ==> plan[0] is RenameColumnInConstraints
        }),
{
}

/// A heap file that cannot be opened ends an action that must look at its rows, and a row with
/// `NULL` ends `SET NOT NULL`; the refusal says why. Without a heap file there is nothing to rewrite.
pub proof fn law_refusals_say_why(
    c: Map<Seq<char>, DatabaseView>,
    db: Seq<char>,
    table: Seq<char>,
    column: String,
    column_def: ColumnDef,
    action_text: Seq<char>,
    e: String,
    rows: Vec<Result<Vec<u8>, DbError>>,
    i: int,
    k: int,
)
    requires
        c.contains_key(db),
        c[db].tables.contains_key(table),
        column_at(c[db].tables[table], column@, i),
    ensures
        alter_table(
            c,
            db,
            table,
            AlterTableAction::SetNotNull { column },
            action_text,
            HeapState::OpenFailed(e),
        ) == Err::<Seq<EffectView>, ErrorView>(
            ErrorView {
                kind: ErrorKind::Other,
                message: "Failed to open heap for SET NOT NULL validation: "@ + e@,
            },
        ),
        alter_table(
            c,
            db,
            table,
            AlterTableAction::DropColumn { column },
            action_text,
            HeapState::OpenFailed(e),
        ) == Err::<Seq<EffectView>, ErrorView>(
            ErrorView {
                kind: ErrorKind::Other,
                message: "Failed to open heap for drop-column backfill: "@ + e@,
            },
        ),
        no_column_at(c[db].tables[table], column_def.name@) && datatype::parsed_type(
            column_def.data_type@,
        ) is Ok ==> alter_table(
            c,
            db,
            table,
            AlterTableAction::AddColumn { column_def },
            action_text,
            HeapState::OpenFailed(e),
        ) == Err::<Seq<EffectView>, ErrorView>(
            ErrorView {
                kind: ErrorKind::Other,
                message: "Failed to open heap for backfill: "@ + e@,
            },
        ),
        0 <= k < rows@.len() && rows@[k] is Ok && row::null_in_row(rows@[k]->Ok_0@, i) && (forall|
            j: int,
        |
            0 <= j < k ==> (#[trigger] rows@[j]) is Ok && !row::null_in_row(rows@[j]->Ok_0@, i))
            ==> alter_table(
            c,
            db,
            table,
            AlterTableAction::SetNotNull { column },
            action_text,
            HeapState::Open { rows, size: None },
        ) == Err::<Seq<EffectView>, ErrorView>(
            ErrorView {
                kind: ErrorKind::InvalidInput,
                message: "Table '"@ + table + "' contains NULL values in column '"@ + column@
                    + "'; cannot alter to NOT NULL"@,
            },
        ),
{
    let columns = c[db].tables[table];
    lemma_column_at(columns, column@, i);
    lemma_column_at(columns, column_def.name@, 0);
    reveal_strlit("Failed to open heap for ");
    reveal_strlit("backfill");
    reveal_strlit("drop-column backfill");
    reveal_strlit(": ");
    reveal_strlit("Failed to open heap for backfill: ");
    reveal_strlit("Failed to open heap for drop-column backfill: ");
    assert("Failed to open heap for "@ + "backfill"@ + ": "@ =~= "Failed to open heap for backfill: "@);
    assert("Failed to open heap for "@ + "drop-column backfill"@ + ": "@
        =~= "Failed to open heap for drop-column backfill: "@);
    if 0 <= k < rows@.len() && rows@[k] is Ok && row::null_in_row(rows@[k]->Ok_0@, i) && (forall|
        j: int,
    |
        0 <= j < k ==> (#[trigger] rows@[j]) is Ok && !row::null_in_row(rows@[j]->Ok_0@, i)) {
        let scan = row::scan_views(rows@);
        assert forall|j: int| 0 <= j < k implies (#[trigger] scan[j]) is Ok && !row::null_in_row(
            scan[j]->Ok_0,
            i,
        ) by {
            assert(rows@[j] is Ok);
        }
        lemma_first_null(table, column@, i, scan, k);
    }
}

proof fn lemma_first_null(
    table: Seq<char>,
    column: Seq<char>,
    i: int,
    scan: Seq<Result<Seq<u8>, ErrorView>>,
    k: int,
)
    requires
        0 <= k < scan.len(),
        scan[k] is Ok,
        row::null_in_row(scan[k]->Ok_0, i),
        forall|j: int|
            0 <= j < k ==> (#[trigger] scan[j]) is Ok && !row::null_in_row(scan[j]->Ok_0, i),
    ensures
        null_found(table, column, i, scan) == Some(
            ErrorView {
                kind: ErrorKind::InvalidInput,
                message: "Table '"@ + table + "' contains NULL values in column '"@ + column
                    + "'; cannot alter to NOT NULL"@,
            },
        ),
    decreases k,
{
    if k > 0 {
        let rest = scan.drop_first();
        assert(scan[0] is Ok);
        assert(rest[k - 1] == scan[k]);
        assert forall|j: int| 0 <= j < k - 1 implies (#[trigger] rest[j]) is Ok
            && !row::null_in_row(rest[j]->Ok_0, i) by {
            assert(rest[j] == scan[j + 1]);
        }
        lemma_first_null(table, column, i, rest, k - 1);
    }
}

/// A column can be added or dropped exactly where the table's columns allow it and every stored row
/// can be read and rewritten: there is no heap file, or its scan gives every row.
pub proof fn law_columns_change_where_every_row_can_be_read(
    c: Map<Seq<char>, DatabaseView>,
    db: Seq<char>,
    table: Seq<char>,
    action: AlterTableAction,
    heap: HeapState,
    i: int,
)
    requires
        c.contains_key(db),
        c[db].tables.contains_key(table),
        action matches AlterTableAction::DropColumn { column } ==> column_at(
            c[db].tables[table],
            column@,
            i,
        ),
        action matches AlterTableAction::AddColumn { column_def } ==> no_column_at(
            c[db].tables[table],
            column_def.name@,
        ) && datatype::parsed_type(column_def.data_type@) is Ok,
        action is AddColumn || action is DropColumn,
    ensures
        can_rewrite(c, db, table, action, heap) <==> match heap {
            HeapState::Missing => true,
            HeapState::OpenFailed(_) => false,
            HeapState::Open { rows, .. } => forall|k: int|
                0 <= k < rows@.len() ==> (#[trigger] rows@[k]) is Ok && row::decoded_row(
                    catalog::schema_of(c[db].tables[table]),
                    rows@[k]->Ok_0@,
                ) is Ok,
        },
{
    let columns = c[db].tables[table];
    match action {
        AlterTableAction::DropColumn { column } => {
            lemma_column_at(columns, column@, i);
        },
        AlterTableAction::AddColumn { column_def } => {
            lemma_column_at(columns, column_def.name@, i);
        },
        _ => {},
    }
    if let HeapState::Open { rows, .. } = heap {
        let scan = row::scan_views(rows@);
        assert forall|k: int| 0 <= k < rows@.len() implies #[trigger] scan[k] == row::scan_view(
            rows@[k],
        ) by {}
        if row::scan_decodes(catalog::schema_of(columns), scan) {
            assert forall|k: int| 0 <= k < rows@.len() implies (#[trigger] rows@[k]) is Ok
                && row::decoded_row(catalog::schema_of(columns), rows@[k]->Ok_0@) is Ok by {
                assert(scan[k] is Ok);
            }
        } else {
            let k = choose|k: int|
                0 <= k < scan.len() && !((#[trigger] scan[k]) is Ok && row::decoded_row(
                    catalog::schema_of(columns),
                    scan[k]->Ok_0,
                ) is Ok);
            assert(scan[k] == row::scan_view(rows@[k]));
        }
    }
}

/// What fails while a table is altered is warned about, or ends the statement, with the step that it
/// was at and the table or the column that it was about.
pub proof fn law_alter_table_says_what_failed(
    c: Map<Seq<char>, DatabaseView>,
    db: Seq<char>,
    table: Seq<char>,
    action: AlterTableAction,
    action_text: Seq<char>,
    heap: HeapState,
    i: int,
)
    requires
        alter_table(c, db, table, action, action_text, heap) is Ok,
        0 <= i < alter_table(c, db, table, action, action_text, heap)->Ok_0.len(),
    ensures
        ({
            let effect = alter_table(c, db, table, action, action_text, heap)->Ok_0[i];
            let task = if action is AddColumn {
                "backfill"@
            } else {
                "drop-column backfill"@
            };
            &&& effect matches EffectView::SaveCatalog { warning } ==> (
            action matches AlterTableAction::RenameTable { new_name } ==> warning == Some(
                "[AlterTable] Warning: failed to save catalog after renaming table '"@ + table
                    + "' → '"@ + new_name@ + "': "@,
            ))
            &&& effect matches EffectView::SaveCatalog { warning } ==> (!(action is RenameTable)
                ==> warning == Some(
                "[AlterTable] Warning: failed to save catalog after altering table '"@ + table
                    + "': "@,
            ))
            &&& effect matches EffectView::DeleteColumnConstraints { column, warning, .. } ==> warning
                == "[AlterTable] Warning: failed to clean up constraint metadata for column '"@
                + column + "': "@
            &&& effect matches EffectView::RenameColumnInConstraints { from, to, warning, .. }
                ==> warning
                == "[AlterTable] Warning: failed to update constraint metadata for column rename '"@
                + from + "' → '"@ + to + "': "@
            &&& effect matches EffectView::WriteHeap { context, .. } ==> context
                == "Failed to create temp heap for "@ + task + ": "@
            &&& effect matches EffectView::RemoveFileOrFail { context, .. } ==> context
                == "Failed to remove old heap during "@ + task + ": "@
            &&& effect matches EffectView::RenameFileOrFail { context, .. } ==> context
                == "Failed to rename backfill heap: "@
        }),
{
}

} // verus!
