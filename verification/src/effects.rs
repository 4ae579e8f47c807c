//! What carrying out a statement takes: an ordered list of effects.
//!
//! A statement is planned as a whole. Its effects are then carried out in order, and the first
//! one that fails ends the statement. Edits of the catalog stand in the same list, so a statement
//! that fails has made exactly the edits before the failure.

use vstd::prelude::*;
use crate::catalog::{CatalogEdit, Column, ColumnView, DatabaseView, EditView};
use crate::catalog;
use crate::errors::{DbError, ErrorView};
use crate::text;

verus! {

/// A table constraint as the system tables store it.
#[derive(Debug, PartialEq)]
pub struct ConstraintRecord {
    pub kind: String,
    pub columns: String,
    pub ref_table: Option<String>,
    pub ref_columns: Option<String>,
}

#[verifier::ext_equal]
pub ghost struct RecordView {
    pub kind: Seq<char>,
    pub columns: Seq<char>,
    pub ref_table: Option<Seq<char>>,
    pub ref_columns: Option<Seq<char>>,
}

impl View for ConstraintRecord {
    type V = RecordView;

    open spec fn view(&self) -> RecordView {
        RecordView {
            kind: self.kind@,
            columns: self.columns@,
            ref_table: catalog::text_view(self.ref_table),
            ref_columns: catalog::text_view(self.ref_columns),
        }
    }
}

/// The views of a sequence of rows.
pub open spec fn row_views(rows: Seq<Vec<u8>>) -> Seq<Seq<u8>> {
    rows.map_values(|r: Vec<u8>| r@)
}

/// The views of a sequence of rows given as literals.
pub open spec fn literal_rows(rows: Seq<Vec<String>>) -> Seq<Seq<Seq<char>>> {
    rows.map_values(|r: Vec<String>| text::views(r@))
}

/// One step of a statement.
#[allow(inconsistent_fields)]
#[derive(Debug, PartialEq)]
pub enum Effect {
    /// A line for standard output.
    Print { text: String },
    /// A line for standard error.
    Warn { text: String },
    /// Remove a file; a failure does not matter.
    RemoveFile { path: String },
    /// Remove a file; a failure ends the statement with `context` and the cause.
    RemoveFileOrFail { path: String, context: String },
    /// Remove a file that exists; a failure ends the statement with `context` and the cause.
    RemoveFileIfPresent { path: String, context: String },
    /// Rename a file; a failure does not matter.
    RenameFile { from: String, to: String },
    /// Rename a file; a failure ends the statement with `context` and the cause.
    RenameFileOrFail { from: String, to: String, context: String },
    /// Remove a directory with all it holds; a failure does not matter.
    RemoveDir { path: String },
    /// Create an empty heap file and flush it; a failure of either ends the statement.
    CreateHeap { path: String, create_context: String, flush_context: String },
    /// Create a heap file with these rows. A failure ends the statement: one to create it with `context` and the cause, one to fill it with the cause.
    WriteHeap { path: String, rows: Vec<Vec<u8>>, context: String },
    /// Remove every index file of a table.
    RemoveIndexFiles { db: String, table: String },
    /// Rename every index file of a table.
    RenameIndexFiles { db: String, from: String, to: String },
    /// Change the catalog in memory.
    Edit { edit: CatalogEdit },
    /// Save the catalog. With a warning, a failure is only warned about: `warning` and the cause. Without, it ends the statement.
    SaveCatalog { warning: Option<String> },
    /// Delete the system-table rows of a table; warn on failure.
    DeleteTableMetadata { db: String, table: String, warning: String },
    /// Delete the system-table rows of a database; warn on failure.
    DeleteDatabaseMetadata { db: String, warning: String },
    /// Delete the system-table rows of an index; warn on failure.
    DeleteIndexMetadata { db: String, table: String, index: String, warning: String },
    /// Delete the constraint rows of a column; warn on failure.
    DeleteColumnConstraints { db: String, table: String, column: String, warning: String },
    /// Rename a column in the constraint rows; warn on failure.
    RenameColumnInConstraints { db: String, table: String, from: String, to: String, warning: String },
    /// Delete the foreign keys that refer to a table and report their number; a failure ends the statement.
    DeleteReferencingForeignKeys { db: String, table: String },
    /// Create a database in the catalog and on disk.
    CreateDatabase { db: String },
    /// Create a table in the catalog and on disk.
    CreateTable { db: String, table: String, columns: Vec<Column> },
    /// Store a table constraint; a failure does not matter.
    InsertConstraint { db: String, table: String, record: ConstraintRecord },
    /// Build an index over one column; warn on failure.
    CreateIndex { db: String, table: String, index: String, column: String, warning: String },
    /// List the databases.
    ShowDatabases,
    /// List the tables of a database.
    ShowTables { db: String },
    /// Insert one row given as literals and report the outcome.
    InsertRow { db: String, table: String, values: Vec<String> },
    /// Insert the rows of a query into its new table and report the outcome of all.
    CopyRows { db: String, table: String, rows: Vec<Vec<String>> },
}

/// The view of an [`Effect`].
#[allow(inconsistent_fields)]
#[verifier::ext_equal]
pub ghost enum EffectView {
    Print { text: Seq<char> },
    Warn { text: Seq<char> },
    RemoveFile { path: Seq<char> },
    RemoveFileOrFail { path: Seq<char>, context: Seq<char> },
    RemoveFileIfPresent { path: Seq<char>, context: Seq<char> },
    RenameFile { from: Seq<char>, to: Seq<char> },
    RenameFileOrFail { from: Seq<char>, to: Seq<char>, context: Seq<char> },
    RemoveDir { path: Seq<char> },
    CreateHeap { path: Seq<char>, create_context: Seq<char>, flush_context: Seq<char> },
    WriteHeap { path: Seq<char>, rows: Seq<Seq<u8>>, context: Seq<char> },
    RemoveIndexFiles { db: Seq<char>, table: Seq<char> },
    RenameIndexFiles { db: Seq<char>, from: Seq<char>, to: Seq<char> },
    Edit { edit: EditView },
    SaveCatalog { warning: Option<Seq<char>> },
    DeleteTableMetadata { db: Seq<char>, table: Seq<char>, warning: Seq<char> },
    DeleteDatabaseMetadata { db: Seq<char>, warning: Seq<char> },
    DeleteIndexMetadata { db: Seq<char>, table: Seq<char>, index: Seq<char>, warning: Seq<char> },
    DeleteColumnConstraints { db: Seq<char>, table: Seq<char>, column: Seq<char>, warning: Seq<char> },
    RenameColumnInConstraints { db: Seq<char>, table: Seq<char>, from: Seq<char>, to: Seq<char>, warning: Seq<char> },
    DeleteReferencingForeignKeys { db: Seq<char>, table: Seq<char> },
    CreateDatabase { db: Seq<char> },
    CreateTable { db: Seq<char>, table: Seq<char>, columns: Seq<ColumnView> },
    InsertConstraint { db: Seq<char>, table: Seq<char>, record: RecordView },
    CreateIndex { db: Seq<char>, table: Seq<char>, index: Seq<char>, column: Seq<char>, warning: Seq<char> },
    ShowDatabases,
    ShowTables { db: Seq<char> },
    InsertRow { db: Seq<char>, table: Seq<char>, values: Seq<Seq<char>> },
    CopyRows { db: Seq<char>, table: Seq<char>, rows: Seq<Seq<Seq<char>>> },
}

impl View for Effect {
    type V = EffectView;

    open spec fn view(&self) -> EffectView {
        match *self {
            Effect::Print { text } => EffectView::Print { text: text@ },
            Effect::Warn { text } => EffectView::Warn { text: text@ },
            Effect::RemoveFile { path } => EffectView::RemoveFile { path: path@ },
            Effect::RemoveFileOrFail { path, context } => EffectView::RemoveFileOrFail { path: path@, context: context@ },
            Effect::RemoveFileIfPresent { path, context } => EffectView::RemoveFileIfPresent { path: path@, context: context@ },
            Effect::RenameFile { from, to } => EffectView::RenameFile { from: from@, to: to@ },
            Effect::RenameFileOrFail { from, to, context } => EffectView::RenameFileOrFail { from: from@, to: to@, context: context@ },
            Effect::RemoveDir { path } => EffectView::RemoveDir { path: path@ },
            Effect::CreateHeap { path, create_context, flush_context } => EffectView::CreateHeap { path: path@, create_context: create_context@, flush_context: flush_context@ },
            Effect::WriteHeap { path, rows, context } => EffectView::WriteHeap { path: path@, rows: row_views(rows@), context: context@ },
            Effect::RemoveIndexFiles { db, table } => EffectView::RemoveIndexFiles { db: db@, table: table@ },
            Effect::RenameIndexFiles { db, from, to } => EffectView::RenameIndexFiles { db: db@, from: from@, to: to@ },
            Effect::Edit { edit } => EffectView::Edit { edit: edit@ },
            Effect::SaveCatalog { warning } => EffectView::SaveCatalog { warning: catalog::text_view(warning) },
            Effect::DeleteTableMetadata { db, table, warning } => EffectView::DeleteTableMetadata { db: db@, table: table@, warning: warning@ },
            Effect::DeleteDatabaseMetadata { db, warning } => EffectView::DeleteDatabaseMetadata { db: db@, warning: warning@ },
            Effect::DeleteIndexMetadata { db, table, index, warning } => EffectView::DeleteIndexMetadata { db: db@, table: table@, index: index@, warning: warning@ },
            Effect::DeleteColumnConstraints { db, table, column, warning } => EffectView::DeleteColumnConstraints { db: db@, table: table@, column: column@, warning: warning@ },
            Effect::RenameColumnInConstraints { db, table, from, to, warning } => EffectView::RenameColumnInConstraints { db: db@, table: table@, from: from@, to: to@, warning: warning@ },
            Effect::DeleteReferencingForeignKeys { db, table } => EffectView::DeleteReferencingForeignKeys { db: db@, table: table@ },
            Effect::CreateDatabase { db } => EffectView::CreateDatabase { db: db@ },
            Effect::CreateTable { db, table, columns } => EffectView::CreateTable { db: db@, table: table@, columns: catalog::column_views(columns@) },
            Effect::InsertConstraint { db, table, record } => EffectView::InsertConstraint { db: db@, table: table@, record: record@ },
            Effect::CreateIndex { db, table, index, column, warning } => EffectView::CreateIndex { db: db@, table: table@, index: index@, column: column@, warning: warning@ },
            Effect::ShowDatabases => EffectView::ShowDatabases,
            Effect::ShowTables { db } => EffectView::ShowTables { db: db@ },
            Effect::InsertRow { db, table, values } => EffectView::InsertRow { db: db@, table: table@, values: text::views(values@) },
            Effect::CopyRows { db, table, rows } => EffectView::CopyRows { db: db@, table: table@, rows: literal_rows(rows@) },
        }
    }
}

/// The views of a sequence of effects.
pub open spec fn shown(effects: Seq<Effect>) -> Seq<EffectView> {
    effects.map_values(|e: Effect| e@)
}

/// The view of a planned statement.
pub open spec fn outcome(r: Result<Vec<Effect>, DbError>) -> Result<Seq<EffectView>, ErrorView> {
    match r {
        Ok(effects) => Ok(shown(effects@)),
        Err(e) => Err(e@),
    }
}

/// The catalog after the edits among `effects`, made in order.
pub open spec fn after(c: Map<Seq<char>, DatabaseView>, effects: Seq<EffectView>) -> Map<
    Seq<char>,
    DatabaseView,
>
    decreases effects.len(),
{
    if effects.len() == 0 {
        c
    } else {
        let before = after(c, effects.drop_last());
        match effects.last() {
            EffectView::Edit { edit } => catalog::edited(before, edit),
            _ => before,
        }
    }
}

/// The effects of two plans in a row: those of the first, then those of the second.
pub proof fn lemma_after_concat(
    c: Map<Seq<char>, DatabaseView>,
    a: Seq<EffectView>,
    b: Seq<EffectView>,
)
    ensures
        after(c, a + b) == after(after(c, a), b),
    decreases b.len(),
{
    if b.len() == 0 {
        assert(a + b =~= a);
    } else {
        assert((a + b).drop_last() =~= a + b.drop_last());
        lemma_after_concat(c, a, b.drop_last());
    }
}

/// A plan without edits leaves the catalog as it is.
pub proof fn lemma_after_no_edit(c: Map<Seq<char>, DatabaseView>, effects: Seq<EffectView>)
    requires
        forall|i: int| 0 <= i < effects.len() ==> !((#[trigger] effects[i]) is Edit),
    ensures
        after(c, effects) == c,
    decreases effects.len(),
{
    if effects.len() > 0 {
        assert(!(effects[effects.len() - 1] is Edit));
        assert forall|i: int| 0 <= i < effects.drop_last().len() implies !((
        #[trigger] effects.drop_last()[i]) is Edit) by {
            assert(effects.drop_last()[i] == effects[i]);
        }
        lemma_after_no_edit(c, effects.drop_last());
    }
}

/// The edits of a plan are made one after the other, in the plan's order, and nothing but an edit
/// changes the catalog.
pub proof fn law_edits_are_made_in_order(
    c: Map<Seq<char>, DatabaseView>,
    plan: Seq<EffectView>,
    next: EffectView,
)
    ensures
        after(c, Seq::empty()) == c,
        next matches EffectView::Edit { edit } ==> after(c, plan.push(next)) == catalog::edited(
            after(c, plan),
            edit,
        ),
        !(next is Edit) ==> after(c, plan.push(next)) == after(c, plan),
{
    assert(plan.push(next).drop_last() =~= plan);
}

} // verus!
