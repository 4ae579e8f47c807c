//! The catalog: databases, their tables and their views, and the edits that statements make.

use vstd::prelude::*;
use storage_manager::types::DataValue;
use crate::ast::SelectPlan;
use crate::datatype::ColumnType;
use crate::directory::Directory;
use crate::text;

verus! {

#[derive(Debug, PartialEq)]
pub struct Constraints {
    pub not_null: bool,
    pub unique: bool,
    pub default: Option<DataValue>,
    pub check: Option<String>,
}

#[derive(Debug, PartialEq)]
pub struct Column {
    pub name: String,
    pub data_type: ColumnType,
    pub nullable: bool,
    pub constraints: Constraints,
}

#[derive(Debug, PartialEq)]
pub struct Table {
    pub columns: Vec<Column>,
}

/// A view: its query as stored text, and as a plan where the text could be decoded.
#[derive(Debug, PartialEq)]
pub struct ViewDef {
    pub query_json: String,
    pub query: Option<SelectPlan>,
}

#[derive(Debug, PartialEq)]
pub struct Database {
    pub tables: Directory<Table>,
    pub views: Directory<ViewDef>,
}

#[derive(Debug, PartialEq)]
pub struct Catalog {
    pub databases: Directory<Database>,
}

#[verifier::ext_equal]
pub ghost struct ColumnView {
    pub name: Seq<char>,
    pub data_type: ColumnType,
    pub nullable: bool,
    pub not_null: bool,
    pub unique: bool,
    pub default: Option<DataValue>,
    pub check: Option<Seq<char>>,
}

#[verifier::ext_equal]
pub ghost struct ViewView {
    pub query_json: Seq<char>,
    pub query: Option<SelectPlan>,
}

#[verifier::ext_equal]
pub ghost struct DatabaseView {
    pub tables: Map<Seq<char>, Seq<ColumnView>>,
    pub views: Map<Seq<char>, ViewView>,
}

/// The view of an optional text.
pub open spec fn text_view(t: Option<String>) -> Option<Seq<char>> {
    match t {
        Some(s) => Some(s@),
        None => None,
    }
}

impl View for Column {
    type V = ColumnView;

    open spec fn view(&self) -> ColumnView {
        ColumnView {
            name: self.name@,
            data_type: self.data_type,
            nullable: self.nullable,
            not_null: self.constraints.not_null,
            unique: self.constraints.unique,
            default: self.constraints.default,
            check: text_view(self.constraints.check),
        }
    }
}

/// The views of a sequence of columns.
pub open spec fn column_views(columns: Seq<Column>) -> Seq<ColumnView> {
    columns.map_values(|c: Column| c@)
}

impl View for Table {
    type V = Seq<ColumnView>;

    open spec fn view(&self) -> Seq<ColumnView> {
        column_views(self.columns@)
    }
}

impl View for ViewDef {
    type V = ViewView;

    open spec fn view(&self) -> ViewView {
        ViewView { query_json: self.query_json@, query: self.query }
    }
}

impl View for Database {
    type V = DatabaseView;

    open spec fn view(&self) -> DatabaseView {
        DatabaseView { tables: self.tables@, views: self.views@ }
    }
}

impl View for Catalog {
    type V = Map<Seq<char>, DatabaseView>;

    open spec fn view(&self) -> Map<Seq<char>, DatabaseView> {
        self.databases@
    }
}

/// Copies a value: `<storage_manager::types::DataValue as Clone>::clone`, a derived impl that
/// copies every field.
#[verifier::external_body]
pub(crate) fn copy_value(v: &DataValue) -> (r: DataValue)
    ensures
        r == *v,
{
    v.clone()
}

impl Column {
    /// A nullable column without constraints.
    pub fn new(name: String, data_type: ColumnType) -> (r: Column)
        ensures
            r@ == plain_column(name@, data_type),
    {
        Column {
            name,
            data_type,
            nullable: true,
            constraints: Constraints { not_null: false, unique: false, default: None, check: None },
        }
    }

    pub fn copy(&self) -> (r: Column)
        ensures
            r@ == self@,
    {
        let default = match &self.constraints.default {
            Some(v) => Some(copy_value(v)),
            None => None,
        };
        let check = match &self.constraints.check {
            Some(t) => Some(t.clone()),
            None => None,
        };
        Column {
            name: self.name.clone(),
            data_type: self.data_type,
            nullable: self.nullable,
            constraints: Constraints {
                not_null: self.constraints.not_null,
                unique: self.constraints.unique,
                default,
                check,
            },
        }
    }
}

/// The view of a nullable column without constraints.
pub open spec fn plain_column(name: Seq<char>, data_type: ColumnType) -> ColumnView {
    ColumnView {
        name,
        data_type,
        nullable: true,
        not_null: false,
        unique: false,
        default: None,
        check: None,
    }
}

/// The types of a table's columns.
pub open spec fn schema_of(columns: Seq<ColumnView>) -> Seq<ColumnType> {
    columns.map_values(|c: ColumnView| c.data_type)
}

/// The first column with this name, up to ASCII letter case.
pub open spec fn column_index(columns: Seq<ColumnView>, name: Seq<char>) -> Option<int>
    decreases columns.len(),
{
    if columns.len() == 0 {
        None
    } else if text::same_fold(columns[0].name, name) {
        Some(0)
    } else {
        match column_index(columns.drop_first(), name) {
            Some(i) => Some(i + 1),
            None => None,
        }
    }
}

/// `column_index` is the least position with the name.
pub proof fn lemma_column_index(columns: Seq<ColumnView>, name: Seq<char>)
    ensures
        match column_index(columns, name) {
            Some(i) => 0 <= i < columns.len() && text::same_fold(columns[i].name, name) && (forall|
                j: int,
            |
                0 <= j < i ==> !text::same_fold((#[trigger] columns[j]).name, name)),
            None => forall|j: int|
                0 <= j < columns.len() ==> !text::same_fold((#[trigger] columns[j]).name, name),
        },
    decreases columns.len(),
{
    if columns.len() > 0 && !text::same_fold(columns[0].name, name) {
        let rest = columns.drop_first();
        lemma_column_index(rest, name);
        assert forall|j: int| 0 < j < columns.len() implies #[trigger] columns[j] == rest[j - 1] by {}
        assert forall|j: int| 0 <= j < rest.len() implies #[trigger] rest[j] == columns[j + 1] by {}
    }
}

impl Table {
    pub fn copy(&self) -> (r: Table)
        ensures
            r@ == self@,
    {
        let mut columns: Vec<Column> = Vec::new();
        let mut i: usize = 0;
        while i < self.columns.len()
            invariant
                i <= self.columns.len(),
                column_views(columns@) == self@.take(i as int),
            decreases self.columns.len() - i,
        {
            let ghost done = columns@;
            let c = self.columns[i].copy();
            let ghost cv = c@;
            columns.push(c);
            assert(column_views(columns@) =~= column_views(done).push(cv));
            assert(self@.take(i + 1) =~= self@.take(i as int).push(self@[i as int]));
            i = i + 1;
        }
        assert(self@.take(i as int) == self@);
        Table { columns }
    }

    pub fn schema(&self) -> (r: Vec<ColumnType>)
        ensures
            r@ == schema_of(self@),
    {
        let mut r: Vec<ColumnType> = Vec::new();
        let mut i: usize = 0;
        while i < self.columns.len()
            invariant
                i <= self.columns.len(),
                r@ == schema_of(self@).take(i as int),
            decreases self.columns.len() - i,
        {
            r.push(self.columns[i].data_type);
            i = i + 1;
        }
        assert(r@ == schema_of(self@));
        r
    }

    /// The position of the column with this name.
    pub fn column_position(&self, name: &str) -> (r: Option<usize>)
        ensures
            match r {
                Some(i) => i < self.columns@.len() && column_index(self@, name@) == Some(i as int),
                None => column_index(self@, name@) is None,
            },
    {
        proof {
            lemma_column_index(self@, name@);
        }
        let mut i: usize = 0;
        while i < self.columns.len()
            invariant
                i <= self.columns.len(),
                forall|j: int| 0 <= j < i ==> !text::same_fold((#[trigger] self@[j]).name, name@),
                match column_index(self@, name@) {
                    Some(k) => 0 <= k < self@.len() && text::same_fold(self@[k].name, name@) && (
                    forall|j: int|
                        0 <= j < k ==> !text::same_fold((#[trigger] self@[j]).name, name@)),
                    None => forall|j: int|
                        0 <= j < self@.len() ==> !text::same_fold((#[trigger] self@[j]).name, name@),
                },
            decreases self.columns.len() - i,
        {
            assert(self@[i as int].name == self.columns@[i as int].name@);
            if text::same_ignoring_case(self.columns[i].name.as_str(), name) {
                return Some(i);
            }
            i = i + 1;
        }
        None
    }
}

/// One change to the catalog.
#[allow(inconsistent_fields)]
#[derive(Debug, PartialEq)]
pub enum CatalogEdit {
    PutTable { db: String, name: String, table: Table },
    DropTable { db: String, name: String },
    PutView { db: String, name: String, view: ViewDef },
    DropView { db: String, name: String },
    DropDatabase { db: String },
}

#[allow(inconsistent_fields)]
#[verifier::ext_equal]
pub ghost enum EditView {
    PutTable { db: Seq<char>, name: Seq<char>, table: Seq<ColumnView> },
    DropTable { db: Seq<char>, name: Seq<char> },
    PutView { db: Seq<char>, name: Seq<char>, view: ViewView },
    DropView { db: Seq<char>, name: Seq<char> },
    DropDatabase { db: Seq<char> },
}

impl View for CatalogEdit {
    type V = EditView;

    open spec fn view(&self) -> EditView {
        match *self {
            CatalogEdit::PutTable { db, name, table } => EditView::PutTable {
                db: db@,
                name: name@,
                table: table@,
            },
            CatalogEdit::DropTable { db, name } => EditView::DropTable { db: db@, name: name@ },
            CatalogEdit::PutView { db, name, view } => EditView::PutView {
                db: db@,
                name: name@,
                view: view@,
            },
            CatalogEdit::DropView { db, name } => EditView::DropView { db: db@, name: name@ },
            CatalogEdit::DropDatabase { db } => EditView::DropDatabase { db: db@ },
        }
    }
}

/// One database after an edit.
pub open spec fn edited_database(d: DatabaseView, edit: EditView) -> DatabaseView {
    match edit {
        EditView::PutTable { db, name, table } => DatabaseView {
            tables: d.tables.insert(name, table),
            ..d
        },
        EditView::DropTable { db, name } => DatabaseView { tables: d.tables.remove(name), ..d },
        EditView::PutView { db, name, view } => DatabaseView { views: d.views.insert(name, view), ..d },
        EditView::DropView { db, name } => DatabaseView { views: d.views.remove(name), ..d },
        EditView::DropDatabase { db } => d,
    }
}

/// The database that an edit is about.
pub open spec fn edit_target(edit: EditView) -> Seq<char> {
    match edit {
        EditView::PutTable { db, .. } => db,
        EditView::DropTable { db, .. } => db,
        EditView::PutView { db, .. } => db,
        EditView::DropView { db, .. } => db,
        EditView::DropDatabase { db } => db,
    }
}

/// The catalog after an edit. An edit about a database that the catalog lacks changes nothing.
pub open spec fn edited(c: Map<Seq<char>, DatabaseView>, edit: EditView) -> Map<
    Seq<char>,
    DatabaseView,
> {
    let db = edit_target(edit);
    if !c.contains_key(db) {
        c
    } else if edit is DropDatabase {
        c.remove(db)
    } else {
        c.insert(db, edited_database(c[db], edit))
    }
}

impl Catalog {
    pub fn new() -> (r: Catalog)
        ensures
            r@ == Map::<Seq<char>, DatabaseView>::empty(),
    {
        Catalog { databases: Directory::new() }
    }

    /// The table `name` of database `db`.
    pub fn table(&self, db: &str, name: &str) -> (r: Option<&Table>)
        ensures
            match r {
                Some(t) => has_table(self@, db@, name@) && t@ == self@[db@].tables[name@],
                None => !has_table(self@, db@, name@),
            },
    {
        match self.databases.get(db) {
            Some(d) => d.tables.get(name),
            None => None,
        }
    }

    /// Carries out one edit.
    pub fn apply(&mut self, edit: CatalogEdit)
        ensures
            final(self)@ == edited(old(self)@, edit@),
    {
        match edit {
            CatalogEdit::PutTable { db, name, table } => {
                if let Some(mut d) = self.databases.remove(db.as_str()) {
                    d.tables.insert(name, table);
                    self.databases.insert(db, d);
                }
            },
            CatalogEdit::DropTable { db, name } => {
                if let Some(mut d) = self.databases.remove(db.as_str()) {
                    let _ = d.tables.remove(name.as_str());
                    self.databases.insert(db, d);
                }
            },
            CatalogEdit::PutView { db, name, view } => {
                if let Some(mut d) = self.databases.remove(db.as_str()) {
                    d.views.insert(name, view);
                    self.databases.insert(db, d);
                }
            },
            CatalogEdit::DropView { db, name } => {
                if let Some(mut d) = self.databases.remove(db.as_str()) {
                    let _ = d.views.remove(name.as_str());
                    self.databases.insert(db, d);
                }
            },
            CatalogEdit::DropDatabase { db } => {
                let _ = self.databases.remove(db.as_str());
            },
        }
        assert(self@ =~= edited(old(self)@, edit@));
    }
}

/// The catalog has a database `db` with a table `name`.
pub open spec fn has_table(
    c: Map<Seq<char>, DatabaseView>,
    db: Seq<char>,
    name: Seq<char>,
) -> bool {
    c.contains_key(db) && c[db].tables.contains_key(name)
}

/// The catalog has a database `db` with a view `name`.
pub open spec fn has_view(
    c: Map<Seq<char>, DatabaseView>,
    db: Seq<char>,
    name: Seq<char>,
) -> bool {
    c.contains_key(db) && c[db].views.contains_key(name)
}

/// A table that is put is there with its columns, in its database alone, and every other table,
/// view and database stays as it was; one that is dropped is gone, and nothing else is.
pub proof fn law_table_edits_touch_one_table(
    c: Map<Seq<char>, DatabaseView>,
    db: Seq<char>,
    name: Seq<char>,
    columns: Seq<ColumnView>,
    other_db: Seq<char>,
    other: Seq<char>,
)
    requires
        c.contains_key(db),
    ensures
        ({
            let put = edited(c, EditView::PutTable { db, name, table: columns });
            let gone = edited(c, EditView::DropTable { db, name });
            &&& has_table(put, db, name) && put[db].tables[name] == columns
            &&& !has_table(gone, db, name)
            &&& put.dom() == c.dom() && gone.dom() == c.dom()
            &&& put[db].views == c[db].views && gone[db].views == c[db].views
            &&& other != name ==> has_table(put, db, other) == has_table(c, db, other)
                && has_table(gone, db, other) == has_table(c, db, other)
            &&& other != name && has_table(c, db, other) ==> put[db].tables[other]
                == c[db].tables[other] && gone[db].tables[other] == c[db].tables[other]
            &&& other_db != db && c.contains_key(other_db) ==> put[other_db] == c[other_db]
                && gone[other_db] == c[other_db]
        }),
{
    assert(edited(c, EditView::PutTable { db, name, table: columns }).dom() =~= c.dom());
    assert(edited(c, EditView::DropTable { db, name }).dom() =~= c.dom());
}

/// A view that is put is there with its query, in its database alone, and every other view, table
/// and database stays as it was; one that is dropped is gone, and nothing else is.
pub proof fn law_view_edits_touch_one_view(
    c: Map<Seq<char>, DatabaseView>,
    db: Seq<char>,
    name: Seq<char>,
    view: ViewView,
    other_db: Seq<char>,
    other: Seq<char>,
)
    requires
        c.contains_key(db),
    ensures
        ({
            let put = edited(c, EditView::PutView { db, name, view });
            let gone = edited(c, EditView::DropView { db, name });
            &&& has_view(put, db, name) && put[db].views[name] == view
            &&& !has_view(gone, db, name)
            &&& put.dom() == c.dom() && gone.dom() == c.dom()
            &&& put[db].tables == c[db].tables && gone[db].tables == c[db].tables
            &&& other != name ==> has_view(put, db, other) == has_view(c, db, other) && has_view(
                gone,
                db,
                other,
            ) == has_view(c, db, other)
            &&& other != name && has_view(c, db, other) ==> put[db].views[other]
                == c[db].views[other] && gone[db].views[other] == c[db].views[other]
            &&& other_db != db && c.contains_key(other_db) ==> put[other_db] == c[other_db]
                && gone[other_db] == c[other_db]
        }),
{
    assert(edited(c, EditView::PutView { db, name, view }).dom() =~= c.dom());
    assert(edited(c, EditView::DropView { db, name }).dom() =~= c.dom());
}

/// A database that is dropped is gone with all it held, and no other is; an edit of a database that
/// is not there changes nothing.
pub proof fn law_database_edits_touch_one_database(
    c: Map<Seq<char>, DatabaseView>,
    db: Seq<char>,
    name: Seq<char>,
    columns: Seq<ColumnView>,
    view: ViewView,
    other_db: Seq<char>,
)
    ensures
        ({
            let gone = edited(c, EditView::DropDatabase { db });
            &&& !gone.contains_key(db)
            &&& other_db != db ==> gone.contains_key(other_db) == c.contains_key(other_db)
            &&& other_db != db && c.contains_key(other_db) ==> gone[other_db] == c[other_db]
            &&& !c.contains_key(db) ==> edited(c, EditView::DropTable { db, name }) == c
            &&& !c.contains_key(db) ==> edited(c, EditView::DropView { db, name }) == c
            &&& !c.contains_key(db) ==> edited(c, EditView::PutTable { db, name, table: columns })
                == c
            &&& !c.contains_key(db) ==> edited(c, EditView::PutView { db, name, view }) == c
        }),
{
}

/// A column is found by its name in whatever letter case, the first one where several have it; a
/// table's schema is the type of each of its columns, in their order.
pub proof fn law_columns_are_found_by_name(columns: Seq<ColumnView>, name: Seq<char>, i: int)
    requires
        0 <= i < columns.len(),
    ensures
        text::ascii_lower(columns[i].name) == text::ascii_lower(name) && (forall|j: int|
            0 <= j < i ==> text::ascii_lower((#[trigger] columns[j]).name) != text::ascii_lower(
                name,
            )) ==> column_index(columns, name) == Some(i),
        (forall|j: int|
            0 <= j < columns.len() ==> text::ascii_lower((#[trigger] columns[j]).name)
                != text::ascii_lower(name)) ==> column_index(columns, name) is None,
        schema_of(columns).len() == columns.len(),
        schema_of(columns)[i] == columns[i].data_type,
{
    lemma_column_index(columns, name);
    if text::ascii_lower(columns[i].name) == text::ascii_lower(name) && (forall|j: int|
        0 <= j < i ==> text::ascii_lower((#[trigger] columns[j]).name) != text::ascii_lower(name)) {
        match column_index(columns, name) {
            None => {
                assert(!text::same_fold(columns[i].name, name));
            },
            Some(k) => {
                if k < i {
                    assert(text::ascii_lower(columns[k].name) != text::ascii_lower(name));
                } else if i < k {
                    assert(!text::same_fold(columns[i].name, name));
                }
            },
        }
    }
}

} // verus!
