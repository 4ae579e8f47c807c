use rookdb::alter::{
    alter_columns, execute_alter_table, needs_heap, AlterTableAction, AlterTablePlan, ColumnDef,
    HeapState,
};
use rookdb::ast::{SelectExpr, SelectPlan, TableRef};
use rookdb::catalog::{Catalog, CatalogEdit, Column, Constraints, Database, Table, ViewDef};
use rookdb::copy::{
    copy_report_lines, execute_create_table_as_select, literal_texts, try_literal_texts,
    ColumnInfo, InsertOutcome, QueryRows, Tuple,
};
use rookdb::create::{
    check_in, clauses_are_sound, default_in, plan_create_table, Clause, CreateTablePlan,
    TableConstraint,
};
use rookdb::datatype::ColumnType;
use rookdb::directory::Directory;
use rookdb::effects::{ConstraintRecord, Effect};
use rookdb::errors::{DbError, ErrorKind};
use rookdb::handlers::{
    handle_alter_table, handle_create_table_as_select, handle_create_view, handle_drop_index,
    handle_drop_table, handle_drop_view, handle_truncate, try_handle_create_table,
    try_handle_create_table_as_select, DropIndexPlan, DropTablePlan, DropViewPlan,
};
use rookdb::indexes::{IndexProbe, LegacyMeta};
use rookdb::logical::{logical_plan_schema, LogicalPlan, NamedExpr, SchemaColumn};
use rookdb::tables::{
    cascaded_keys_line, execute_create_view, execute_drop_table, execute_drop_view,
    execute_truncate, CreateViewPlan,
};
use storage_manager::types::{DataValue, NumericValue};

fn s(t: &str) -> String {
    t.to_string()
}

fn print(t: &str) -> Effect {
    Effect::Print { text: s(t) }
}

fn fail<T>(kind: ErrorKind, message: &str) -> Result<T, DbError> {
    Err(DbError { kind, message: s(message) })
}

fn query(table: &str) -> SelectPlan {
    SelectPlan {
        ctes: vec![],
        projections: vec![SelectExpr::Wildcard],
        from: vec![TableRef { name: s(table), alias: None }],
        joins: vec![],
        selection: None,
        group_by: vec![],
        having: None,
        order_by: vec![],
        limit: None,
        distinct: false,
    }
}

fn emp() -> Table {
    Table {
        columns: vec![
            Column::new(s("id"), ColumnType::Int),
            Column::new(s("Name"), ColumnType::Varchar(20)),
        ],
    }
}

fn shop() -> Catalog {
    let mut tables = Directory::new();
    tables.insert(s("emp"), emp());
    tables.insert(s("dept"), Table { columns: vec![Column::new(s("id"), ColumnType::Int)] });
    let mut views = Directory::new();
    views.insert(s("v"), ViewDef { query_json: s("{}"), query: Some(query("EMP")) });
    views.insert(s("w"), ViewDef { query_json: s("{}"), query: Some(query("dept")) });
    views.insert(s("broken"), ViewDef { query_json: s("emp"), query: None });
    let mut databases = Directory::new();
    databases.insert(s("shop"), Database { tables, views });
    Catalog { databases }
}

fn run(mut catalog: Catalog, effects: Vec<Effect>) -> Catalog {
    for effect in effects {
        if let Effect::Edit { edit } = effect {
            catalog.apply(edit);
        }
    }
    catalog
}

fn no_keys() -> Result<Vec<String>, String> {
    Ok(vec![])
}

#[test]
fn drop_if_exists() {
    let c = shop();
    assert_eq!(
        execute_drop_table(&c, "shop", "nope", true, false, &no_keys()),
        Ok(vec![print("Table 'nope' does not exist (IF EXISTS specified, skipping).")])
    );
    assert_eq!(
        execute_drop_view(&c, "shop", "nope", true),
        Ok(vec![print("View 'nope' does not exist (IF EXISTS specified, skipping).")])
    );
}

#[test]
fn dropping_what_is_not_there_is_refused() {
    let c = shop();
    assert_eq!(
        execute_drop_table(&c, "nodb", "emp", true, true, &no_keys()),
        fail(ErrorKind::NotFound, "Database 'nodb' not found")
    );
    assert_eq!(
        execute_drop_table(&c, "shop", "nope", false, true, &no_keys()),
        fail(ErrorKind::NotFound, "Table 'nope' not found in database 'shop'")
    );
    assert_eq!(
        execute_drop_view(&c, "shop", "nope", false),
        fail(ErrorKind::NotFound, "View 'nope' not found in database 'shop'")
    );
    assert_eq!(
        execute_drop_view(&c, "nodb", "v", true),
        fail(ErrorKind::NotFound, "Database 'nodb' not found")
    );
}

#[test]
fn a_referenced_table_is_not_dropped_without_cascade() {
    let c = shop();
    assert_eq!(
        execute_drop_table(&c, "shop", "emp", false, false, &no_keys()),
        fail(ErrorKind::PermissionDenied, "Cannot drop table 'emp' because it is referenced by views: v")
    );
    let mut plain = shop();
    plain.apply(CatalogEdit::DropView { db: s("shop"), name: s("v") });
    assert_eq!(
        execute_drop_table(&plain, "shop", "emp", false, false, &Ok(vec![s("a"), s("b")])),
        fail(
            ErrorKind::PermissionDenied,
            "Cannot drop table 'emp' because it is referenced by foreign keys in: a, b"
        )
    );
    assert_eq!(
        execute_drop_table(&plain, "shop", "emp", false, false, &Err(s("disk"))),
        fail(ErrorKind::Other, "Failed to check referencing foreign keys: disk")
    );
}

#[test]
fn a_cascade_takes_views_and_keys_along() {
    let c = shop();
    let plan = execute_drop_table(&c, "shop", "emp", false, true, &Ok(vec![s("child")])).unwrap();
    let edit = |edit| Effect::Edit { edit };
    assert_eq!(
        plan,
        vec![
            edit(CatalogEdit::DropView { db: s("shop"), name: s("v") }),
            print("Cascaded drop of view 'v'."),
            Effect::DeleteReferencingForeignKeys { db: s("shop"), table: s("emp") },
            edit(CatalogEdit::DropTable { db: s("shop"), name: s("emp") }),
            Effect::RemoveFile { path: s("database/base/shop/emp.dat") },
            Effect::RemoveFile { path: s("database/base/shop/emp.dat.fsm") },
            Effect::RemoveIndexFiles { db: s("shop"), table: s("emp") },
            Effect::DeleteTableMetadata {
                db: s("shop"),
                table: s("emp"),
                warning: s("[DropTable] Warning: failed to clean up system table metadata for 'shop.emp': "),
            },
            Effect::SaveCatalog {
                warning: Some(s("[DropTable] Warning: failed to save catalog after dropping table 'shop.emp': ")),
            },
            print("Dropped table 'emp' from database 'shop'."),
        ]
    );
    let end = run(shop(), plan);
    assert!(end.table("shop", "emp").is_none());
    assert!(end.table("shop", "dept").is_some());
    let d = end.databases.get("shop").unwrap();
    assert!(!d.views.contains_key("v"));
    assert!(d.views.contains_key("w"));
    assert!(d.views.contains_key("broken"));
    assert_eq!(cascaded_keys_line(12), "Cascaded drop of 12 referencing foreign key constraints.");
}

#[test]
fn truncate_table() {
    let c = shop();
    assert_eq!(
        execute_truncate(&c, "shop", "emp"),
        Ok(vec![
            Effect::RemoveFileIfPresent {
                path: s("database/base/shop/emp.dat"),
                context: s("Failed to remove table file: "),
            },
            Effect::RemoveFile { path: s("database/base/shop/emp.dat.fsm") },
            Effect::CreateHeap {
                path: s("database/base/shop/emp.dat"),
                create_context: s("Failed to create table file: "),
                flush_context: s("Failed to flush table file: "),
            },
            Effect::RemoveIndexFiles { db: s("shop"), table: s("emp") },
            print("Truncated table 'emp' (0 rows)."),
        ])
    );
    assert_eq!(
        execute_truncate(&c, "x", "emp"),
        fail(ErrorKind::NotFound, "Database 'x' not found")
    );
    assert_eq!(
        execute_truncate(&c, "shop", "x"),
        fail(ErrorKind::NotFound, "Table 'x' not found in database 'shop'")
    );
}

fn view(name: &str, or_replace: bool) -> CreateViewPlan {
    CreateViewPlan { name: s(name), or_replace, query: query("dept") }
}

#[test]
fn views_are_created_and_dropped() {
    let c = shop();
    let plan = execute_create_view(&c, "shop", view("new", false), Ok(s("json"))).unwrap();
    assert_eq!(plan[1], Effect::SaveCatalog { warning: None });
    assert_eq!(plan[2], print("View 'new' created successfully."));
    let with_view = run(shop(), plan);
    let def = with_view.databases.get("shop").unwrap().views.get("new").unwrap();
    assert_eq!(def.query_json, "json");
    assert_eq!(def.query, Some(query("dept")));
    let back = execute_drop_view(&with_view, "shop", "new", false).unwrap();
    assert_eq!(back[2], print("View 'new' dropped."));
    let end = run(with_view, back);
    assert!(!end.databases.get("shop").unwrap().views.contains_key("new"));
    assert!(end.databases.get("shop").unwrap().views.contains_key("v"));
}

#[test]
fn a_view_replaces_a_view_only_on_request() {
    let c = shop();
    assert_eq!(
        execute_create_view(&c, "shop", view("v", false), Ok(s("j"))),
        fail(ErrorKind::AlreadyExists, "View 'v' already exists (use OR REPLACE to modify)")
    );
    let plan = execute_create_view(&c, "shop", view("v", true), Ok(s("j"))).unwrap();
    let end = run(shop(), plan);
    assert_eq!(end.databases.get("shop").unwrap().views.get("v").unwrap().query_json, "j");
}

#[test]
fn a_view_never_replaces_a_table() {
    let c = shop();
    assert_eq!(
        execute_create_view(&c, "shop", view("emp", true), Ok(s("j"))),
        fail(ErrorKind::AlreadyExists, "A table named 'emp' already exists")
    );
    assert_eq!(
        execute_create_view(&c, "shop", view("emp", true), Err(s("bad"))),
        fail(ErrorKind::InvalidData, "bad")
    );
    assert_eq!(
        execute_create_view(&c, "x", view("emp", true), Err(s("bad"))),
        fail(ErrorKind::NotFound, "Database 'x' not found")
    );
}

fn add(name: &str, ty: &str) -> AlterTableAction {
    AlterTableAction::AddColumn {
        column_def: ColumnDef { name: s(name), data_type: s(ty), constraints: vec![] },
    }
}

fn drop_column(name: &str) -> AlterTableAction {
    AlterTableAction::DropColumn { column: s(name) }
}

fn alter(action: AlterTableAction) -> AlterTablePlan {
    AlterTablePlan { table: s("emp"), action }
}

#[test]
fn altering_what_is_not_there_is_refused() {
    let c = shop();
    let missing = HeapState::Missing;
    assert_eq!(
        execute_alter_table(&c, "x", &alter(drop_column("id")), "", &missing),
        fail(ErrorKind::NotFound, "Database 'x' not found")
    );
    let plan = AlterTablePlan { table: s("nope"), action: drop_column("id") };
    assert_eq!(
        execute_alter_table(&c, "shop", &plan, "", &missing),
        fail(ErrorKind::NotFound, "Table 'nope' not found")
    );
    for action in [
        drop_column("x"),
        AlterTableAction::RenameColumn { old_name: s("x"), new_name: s("y") },
        AlterTableAction::SetDefault { column: s("x"), default_expr: s("1") },
        AlterTableAction::DropDefault { column: s("x") },
        AlterTableAction::SetNotNull { column: s("x") },
        AlterTableAction::DropNotNull { column: s("x") },
    ] {
        assert_eq!(
            execute_alter_table(&c, "shop", &alter(action), "", &missing),
            fail(ErrorKind::NotFound, "Column 'x' not found in table 'emp'")
        );
    }
}

#[test]
fn a_table_is_renamed() {
    let c = shop();
    let action = AlterTableAction::RenameTable { new_name: s("staff") };
    assert!(!needs_heap(&action));
    let plan = execute_alter_table(&c, "shop", &alter(action), "", &HeapState::Missing).unwrap();
    assert_eq!(
        plan[0],
        Effect::RenameFile { from: s("database/base/shop/emp.dat"), to: s("database/base/shop/staff.dat") }
    );
    assert_eq!(
        plan[1],
        Effect::RenameFile {
            from: s("database/base/shop/emp.dat.fsm"),
            to: s("database/base/shop/staff.dat.fsm"),
        }
    );
    assert_eq!(
        plan[2],
        Effect::RenameIndexFiles { db: s("shop"), from: s("emp"), to: s("staff") }
    );
    assert_eq!(
        plan[5],
        Effect::SaveCatalog {
            warning: Some(s("[AlterTable] Warning: failed to save catalog after renaming table 'emp' → 'staff': ")),
        }
    );
    assert_eq!(plan[6], print("Renamed table 'emp' to 'staff'."));
    let end = run(shop(), plan);
    assert!(end.table("shop", "emp").is_none());
    assert_eq!(end.table("shop", "staff"), Some(&emp()));
    assert!(end.table("shop", "dept").is_some());
    let action = AlterTableAction::RenameTable { new_name: s("dept") };
    assert_eq!(
        execute_alter_table(&c, "shop", &alter(action), "", &HeapState::Missing),
        fail(ErrorKind::AlreadyExists, "Table 'dept' already exists")
    );
}

#[test]
fn a_column_is_added_and_dropped() {
    let c = shop();
    let plan = execute_alter_table(&c, "shop", &alter(add("age", " integer ")), "Add", &HeapState::Missing).unwrap();
    assert_eq!(plan.len(), 3);
    assert_eq!(plan[2], print("Altered table 'emp': Add."));
    let end = run(shop(), plan);
    let t = end.table("shop", "emp").unwrap();
    assert_eq!(t.columns.len(), 3);
    assert_eq!(t.columns[2], Column::new(s("age"), ColumnType::Int));
    let plan = execute_alter_table(&end, "shop", &alter(drop_column("AGE")), "Drop", &HeapState::Missing).unwrap();
    assert_eq!(
        plan[0],
        Effect::DeleteColumnConstraints {
            db: s("shop"),
            table: s("emp"),
            column: s("AGE"),
            warning: s("[AlterTable] Warning: failed to clean up constraint metadata for column 'AGE': "),
        }
    );
    let end = run(end, plan);
    assert_eq!(end.table("shop", "emp"), Some(&emp()));
}

#[test]
fn a_column_is_added_under_a_new_name_and_a_known_type() {
    let c = shop();
    let missing = HeapState::Missing;
    assert_eq!(
        execute_alter_table(&c, "shop", &alter(add("NAME", "INT")), "", &missing),
        fail(ErrorKind::AlreadyExists, "Column 'NAME' already exists in table 'emp'")
    );
    assert_eq!(
        execute_alter_table(&c, "shop", &alter(add("NAME", "BLOB")), "", &missing),
        fail(ErrorKind::InvalidInput, "Invalid data type: Unknown data type: 'BLOB'")
    );
}

#[test]
fn a_heap_that_cannot_be_opened_refuses_the_action() {
    let c = shop();
    let broken = HeapState::OpenFailed(s("locked"));
    for (action, message) in [
        (add("age", "INT"), "Failed to open heap for backfill: locked"),
        (drop_column("id"), "Failed to open heap for drop-column backfill: locked"),
        (
            AlterTableAction::SetNotNull { column: s("id") },
            "Failed to open heap for SET NOT NULL validation: locked",
        ),
    ] {
        assert!(needs_heap(&action));
        assert_eq!(
            execute_alter_table(&c, "shop", &alter(action), "", &broken),
            fail(ErrorKind::Other, message)
        );
    }
}

#[test]
fn a_column_is_renamed_there_and_back() {
    let there = AlterTableAction::RenameColumn { old_name: s("name"), new_name: s("label") };
    let t = alter_columns("emp", &emp(), &there).unwrap();
    assert_eq!(t.columns[1].name, "label");
    assert_eq!(t.columns[0], emp().columns[0]);
    let back = AlterTableAction::RenameColumn { old_name: s("LABEL"), new_name: s("Name") };
    assert_eq!(alter_columns("emp", &t, &back), Ok(emp()));
    let c = shop();
    let plan = execute_alter_table(&c, "shop", &alter(there), "R", &HeapState::Missing).unwrap();
    assert_eq!(
        plan[0],
        Effect::RenameColumnInConstraints {
            db: s("shop"),
            table: s("emp"),
            from: s("name"),
            to: s("label"),
            warning: s("[AlterTable] Warning: failed to update constraint metadata for column rename 'name' → 'label': "),
        }
    );
}

#[test]
fn defaults_are_read_as_values_of_the_column() {
    let set = |text: &str, column: &str| {
        let action = AlterTableAction::SetDefault { column: s(column), default_expr: s(text) };
        alter_columns("emp", &emp(), &action).unwrap()
    };
    assert_eq!(set("42", "ID").columns[0].constraints.default, Some(DataValue::Int(42)));
    assert_eq!(set("x", "id").columns[0].constraints.default, None);
    let t = set("'bob'", "name");
    assert_eq!(t.columns[1].constraints.default, Some(DataValue::Varchar(s("bob"))));
    assert_eq!(t.copy(), t);
    let action = AlterTableAction::DropDefault { column: s("name") };
    assert_eq!(alter_columns("emp", &t, &action), Ok(emp()));
}

#[test]
fn alter_column_not_null() {
    let set = AlterTableAction::SetNotNull { column: s("ID") };
    let t = alter_columns("emp", &emp(), &set).unwrap();
    assert!(!t.columns[0].nullable);
    assert!(t.columns[0].constraints.not_null);
    let drop = AlterTableAction::DropNotNull { column: s("id") };
    assert_eq!(alter_columns("emp", &t, &drop), Ok(emp()));
}

fn def(name: &str, ty: &str, constraints: &[&str]) -> ColumnDef {
    ColumnDef {
        name: s(name),
        data_type: s(ty),
        constraints: constraints.iter().map(|c| s(c)).collect(),
    }
}

#[test]
fn a_table_is_created_from_its_definitions() {
    let params = CreateTablePlan {
        table: s("Emp"),
        columns: vec![
            def("id", "INT", &["primary key"]),
            def("name", "varchar(10)", &["NOT NULL", "default 'x y'", "Unique"]),
            def("bad", "BLOB", &["PRIMARY KEY"]),
            def("code", "CHAR(3)", &["DEFAULT(abc)", "CHECK(Code <> 'é')"]),
        ],
        constraints: vec![
            TableConstraint { definition: s("UNIQUE (code)") },
            TableConstraint { definition: s("nonsense") },
        ],
    };
    assert!(clauses_are_sound(&params.columns));
    let plan = plan_create_table("shop", &params);
    let index = |column: &str| Effect::CreateIndex {
        db: s("shop"),
        table: s("Emp"),
        index: format!("pk_Emp_{}", column),
        column: s(column),
        warning: s("Warning: failed to auto-create PRIMARY KEY index: "),
    };
    let column = |name: &str, ty, not_null: bool, unique, default, check: Option<&str>| Column {
        name: s(name),
        data_type: ty,
        nullable: !not_null,
        constraints: Constraints { not_null, unique, default, check: check.map(|c| s(c)) },
    };
    assert_eq!(
        plan,
        vec![
            print("Unknown type 'BLOB': Unknown data type: 'BLOB'. Supported: SMALLINT, INT, BIGINT, REAL, DOUBLE PRECISION, NUMERIC(p,s), DECIMAL(p,s), BOOLEAN, CHAR(n), CHARACTER(n), VARCHAR(n), DATE, TIME, TIMESTAMP, BIT(n)"),
            Effect::CreateTable {
                db: s("shop"),
                table: s("Emp"),
                columns: vec![
                    column("id", ColumnType::Int, true, true, None, None),
                    column("name", ColumnType::Varchar(10), true, true, Some(DataValue::Varchar(s("x y"))), None),
                    column("code", ColumnType::Char(3), false, false, Some(DataValue::Char(s("ABC"))), Some("Code <> 'é'")),
                ],
            },
            print("Table 'Emp' created successfully."),
            Effect::InsertConstraint {
                db: s("shop"),
                table: s("Emp"),
                record: ConstraintRecord { kind: s("UNIQUE"), columns: s("CODE"), ref_table: None, ref_columns: None },
            },
            index("id"),
            index("bad"),
        ]
    );
    assert_eq!(try_handle_create_table(&Some(s("shop")), &params), Some(plan));
}

#[test]
fn clauses_are_cut_by_byte() {
    assert_eq!(default_in("default 5", "DEFAULT 5"), Clause::Found(s("5")));
    assert_eq!(default_in("default(a)b)", "DEFAULT(A)B)"), Clause::Found(s("A)B")));
    assert_eq!(default_in("default(a", "DEFAULT(A"), Clause::Absent);
    assert_eq!(default_in("NOT NULL", "NOT NULL"), Clause::Absent);
    assert_eq!(check_in("check(a > 1) x", "CHECK(A > 1) X"), Clause::Found(s("a > 1")));
    assert_eq!(check_in("check (a)", "CHECK (A)"), Clause::Absent);
    assert_eq!(check_in("check(a", "CHECK(A"), Clause::Absent);
}

#[test]
fn a_clause_that_cannot_be_cut_is_told_apart() {
    // one byte less in upper case: the cut lands inside the last character before the parenthesis
    let text = "CHECK(ıé)";
    assert_eq!(check_in(text, &text.to_uppercase()), Clause::Broken);
    let params = CreateTablePlan {
        table: s("t"),
        columns: vec![def("c", "INT", &[text])],
        constraints: vec![],
    };
    assert!(!clauses_are_sound(&params.columns));
    assert_eq!(try_handle_create_table(&Some(s("shop")), &params), None);
    // a definition of unknown type is never cut
    assert!(clauses_are_sound(&vec![def("c", "BLOB", &[text])]));
}

fn scan() -> LogicalPlan {
    LogicalPlan::TableScan {
        columns: vec![
            SchemaColumn { name: s("id"), data_type: s("INT") },
            SchemaColumn { name: s("odd"), data_type: s("JSON") },
        ],
    }
}

#[test]
fn schemas_of_plans() {
    let pair = |a: &str, b: &str| (s(a), s(b));
    let scanned = vec![pair("id", "INT"), pair("odd", "JSON")];
    assert_eq!(logical_plan_schema(&scan()), scanned);
    let wrap = |child: LogicalPlan| {
        LogicalPlan::Limit {
            child: Box::new(LogicalPlan::Sort {
                child: Box::new(LogicalPlan::Filter {
                    child: Box::new(LogicalPlan::Distinct {
                        child: Box::new(LogicalPlan::Aggregate { child: Box::new(child) }),
                    }),
                }),
            }),
        }
    };
    assert_eq!(logical_plan_schema(&wrap(scan())), scanned);
    let project = LogicalPlan::Project { expressions: vec![NamedExpr { name: s("n") }] };
    assert_eq!(logical_plan_schema(&project), vec![pair("n", "VARCHAR(255)")]);
    let join = LogicalPlan::Join { left: Box::new(project), right: Box::new(scan()) };
    assert_eq!(
        logical_plan_schema(&join),
        vec![pair("n", "VARCHAR(255)"), pair("id", "INT"), pair("odd", "JSON")]
    );
    let set = LogicalPlan::SetOp {
        left: Box::new(scan()),
        right: Box::new(LogicalPlan::Project { expressions: vec![] }),
    };
    let outer = LogicalPlan::Subquery {
        subquery: Box::new(LogicalPlan::Cte {
            outer: Box::new(LogicalPlan::RecursiveCte {
                outer: Box::new(LogicalPlan::Insert { child: Box::new(set) }),
            }),
        }),
    };
    assert_eq!(logical_plan_schema(&outer), scanned);
    let cte = LogicalPlan::CteScan { columns: vec![SchemaColumn { name: s("c"), data_type: s("DATE") }] };
    assert_eq!(logical_plan_schema(&cte), vec![pair("c", "DATE")]);
}

#[test]
fn a_query_without_rows_gives_the_columns_of_its_plan() {
    let rows = QueryRows::Rows { plan: scan(), tuples: vec![] };
    assert_eq!(
        execute_create_table_as_select(&shop(), "shop", "copy", &rows),
        Ok(vec![
            Effect::CreateTable {
                db: s("shop"),
                table: s("copy"),
                columns: vec![
                    Column::new(s("id"), ColumnType::Int),
                    Column::new(s("odd"), ColumnType::Varchar(255)),
                ],
            },
            print("Table 'copy' created successfully (0 rows)."),
        ])
    );
    let none = QueryRows::Rows { plan: LogicalPlan::Project { expressions: vec![] }, tuples: vec![] };
    assert_eq!(
        execute_create_table_as_select(&shop(), "shop", "copy", &none),
        fail(ErrorKind::InvalidInput, "Cannot determine column types for CREATE TABLE AS SELECT")
    );
}

#[test]
fn create_table_as_select() {
    let tuple = |id: i32, name: Option<&str>| Tuple {
        column_info: vec![
            ColumnInfo { name: s("id"), data_type: ColumnType::Int },
            ColumnInfo { name: s("name"), data_type: ColumnType::Varchar(5) },
        ],
        values: vec![Some(DataValue::Int(id)), name.map(|n| DataValue::Varchar(s(n)))],
        page_id: None,
        slot_id: None,
    };
    let rows = QueryRows::Rows { plan: scan(), tuples: vec![tuple(1, Some("a")), tuple(2, None)] };
    let plan = execute_create_table_as_select(&shop(), "shop", "copy", &rows).unwrap();
    assert_eq!(
        plan[0],
        Effect::CreateTable {
            db: s("shop"),
            table: s("copy"),
            columns: vec![
                Column::new(s("id"), ColumnType::Int),
                Column::new(s("name"), ColumnType::Varchar(5)),
            ],
        }
    );
    assert_eq!(
        plan[1],
        Effect::CopyRows {
            db: s("shop"),
            table: s("copy"),
            rows: vec![vec![s("1"), s("'a'")], vec![s("2"), s("NULL")]],
        }
    );
    assert_eq!(literal_texts(&vec![Some(DataValue::Bool(true)), None]), vec!["true", "NULL"]);
}

#[test]
fn a_copy_that_cannot_start_is_refused() {
    let c = shop();
    let rows = QueryRows::PlanFailed(s("no column"));
    assert_eq!(
        execute_create_table_as_select(&c, "x", "copy", &rows),
        fail(ErrorKind::NotFound, "Database 'x' not found")
    );
    assert_eq!(
        execute_create_table_as_select(&c, "shop", "emp", &rows),
        fail(ErrorKind::AlreadyExists, "Table 'emp' already exists")
    );
    assert_eq!(
        execute_create_table_as_select(&c, "shop", "copy", &rows),
        fail(ErrorKind::InvalidInput, "Failed to plan SELECT query: no column")
    );
    assert_eq!(
        execute_create_table_as_select(&c, "shop", "copy", &QueryRows::ExecutionFailed(s("disk"))),
        fail(ErrorKind::Other, "Failed to execute SELECT query: disk")
    );
}

#[test]
fn a_copy_accounts_for_every_row() {
    let outcomes = vec![
        InsertOutcome::Inserted,
        InsertOutcome::Rejected,
        InsertOutcome::Failed(s("full")),
        InsertOutcome::Inserted,
    ];
    assert_eq!(
        copy_report_lines("copy", &outcomes),
        vec![
            "Insert failed for one row.",
            "Insert error: full",
            "Table 'copy' created successfully with 2 row(s).",
        ]
    );
}

#[test]
fn error_no_database_selected() {
    let c = shop();
    let answer = Ok(vec![print("No database selected. Use 'USE <database>' first.")]);
    let params = CreateTablePlan { table: s("t"), columns: vec![], constraints: vec![] };
    assert_eq!(Ok(try_handle_create_table(&None, &params).unwrap()), answer);
    let drop = DropTablePlan { table: s("emp"), if_exists: false, cascade: false };
    assert_eq!(handle_drop_table(&c, &None, &drop, &no_keys()), answer);
    assert_eq!(handle_alter_table(&c, &None, &alter(drop_column("id")), "", &HeapState::Missing), answer);
    assert_eq!(handle_create_view(&c, &None, view("x", false), Ok(s("j"))), answer);
    assert_eq!(handle_drop_view(&c, &None, &DropViewPlan { name: s("v"), if_exists: false }), answer);
    assert_eq!(handle_truncate(&c, &None, "emp"), answer);
    let rows = QueryRows::PlanFailed(s("x"));
    assert_eq!(handle_create_table_as_select(&c, &None, "t", &rows), answer);
    let index = DropIndexPlan { index_name: s("i"), table_name: s("emp"), if_exists: false };
    let probe = IndexProbe {
        named_exists: false,
        legacy_exists: false,
        legacy_meta: LegacyMeta::Unreadable,
        base_exists: true,
        files: vec![],
    };
    assert_eq!(handle_drop_index(&c, &None, &index, &probe), answer);
}

#[test]
fn handlers_plan_in_the_selected_database() {
    let c = shop();
    let db = Some(s("shop"));
    let drop = DropTablePlan { table: s("dept"), if_exists: false, cascade: true };
    assert_eq!(
        handle_drop_table(&c, &db, &drop, &no_keys()),
        execute_drop_table(&c, "shop", "dept", false, true, &no_keys())
    );
    assert_eq!(handle_truncate(&c, &db, "emp"), execute_truncate(&c, "shop", "emp"));
    assert_eq!(
        handle_drop_view(&c, &db, &DropViewPlan { name: s("v"), if_exists: false }),
        execute_drop_view(&c, "shop", "v", false)
    );
}

#[test]
fn a_value_without_a_text_is_not_copied() {
    let least = || Some(DataValue::Numeric(NumericValue { unscaled: i128::MIN, scale: 3 }));
    assert_eq!(try_literal_texts(&vec![None, least()]), None);
    let near = Some(DataValue::Numeric(NumericValue { unscaled: -5, scale: 1 }));
    assert_eq!(try_literal_texts(&vec![None, near]), Some(vec![s("NULL"), s("-0.5")]));
    let tuple = Tuple { column_info: vec![], values: vec![least()], page_id: None, slot_id: None };
    let rows = QueryRows::Rows { plan: scan(), tuples: vec![tuple] };
    let c = shop();
    let in_db = |db: &str, table: &str| {
        try_handle_create_table_as_select(&c, &Some(s(db)), table, &rows)
    };
    assert_eq!(in_db("shop", "copy"), None);
    assert_eq!(
        in_db("shop", "emp"),
        Some(fail(ErrorKind::AlreadyExists, "Table 'emp' already exists"))
    );
    assert_eq!(in_db("x", "copy"), Some(fail(ErrorKind::NotFound, "Database 'x' not found")));
    assert!(try_handle_create_table_as_select(&c, &None, "copy", &rows).is_some());
}
