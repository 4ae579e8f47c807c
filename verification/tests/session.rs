use rookdb::ast::{ArithOp, CompareOp, ConstantValue, ExprNode, FunctionArg, PredicateNode, SelectPlan, SubqueryInfo};
use rookdb::catalog::{Catalog, CatalogEdit, Column, Database, Table, ViewDef};
use rookdb::copy::InsertOutcome;
use rookdb::datatype::{parse_literal, ColumnType};
use rookdb::directory::Directory;
use rookdb::dml::{
    continue_update, delete_line, handle_delete, handle_insert, handle_update, insert_line,
    insert_query_line, locate, row_selection, row_to_literals, set_clause_text,
    try_handle_insert, try_row_to_literals, update_line, update_rows, Assignment, ChangeOutcome, FoundRows, InsertPlan, InsertStep, InsertValue, RowStep,
    UpdateStep,
};
use rookdb::effects::Effect;
use rookdb::render::{constant_to_raw_string, expr_to_debug_string, fallback_expr, value_expr_to_string};
use rookdb::session::{
    create_index_line, database_name_fault, error_line, handle_create_database, handle_create_index,
    handle_drop_database, handle_select, handle_set_operation, handle_show_databases,
    handle_show_tables, handle_use_database, handle_vacuum, query_line, unsupported_line,
    vacuum_lines, CreateDatabasePlan, CreateIndexPlan, DropDatabasePlan, EngineStep, QueryOutcome,
    VacuumOutcome,
};
use storage_manager::types::{DataValue, NumericValue};

fn s(t: &str) -> String {
    t.to_string()
}

fn print(t: &str) -> Effect {
    Effect::Print { text: s(t) }
}

const NO_DATABASE: &str = "No database selected. Use 'USE <database>' first.";

fn catalog(names: &[&str]) -> Catalog {
    let mut databases = Directory::new();
    for name in names {
        databases.insert(s(name), Database { tables: Directory::new(), views: Directory::new() });
    }
    Catalog { databases }
}

#[test]
fn drop_database() {
    assert_eq!(
        handle_create_database(&CreateDatabasePlan { database: s("droptest") }),
        vec![
            Effect::CreateDatabase { db: s("droptest") },
            print("Database 'droptest' created successfully."),
        ]
    );
    assert_eq!(handle_show_databases(), vec![Effect::ShowDatabases]);
    let mut c = catalog(&["droptest", "other"]);
    let mut current = Some(s("droptest"));
    let plan = DropDatabasePlan { database: s("droptest"), if_exists: false };
    let effects = handle_drop_database(&c, &mut current, &plan, &None);
    assert_eq!(
        effects,
        vec![
            Effect::Edit { edit: CatalogEdit::DropDatabase { db: s("droptest") } },
            Effect::RemoveDir { path: s("database/base/droptest") },
            Effect::DeleteDatabaseMetadata {
                db: s("droptest"),
                warning: s("[DropDatabase] Warning: failed to clean up system table metadata: "),
            },
            Effect::SaveCatalog {
                warning: Some(s("[DropDatabase] Warning: failed to save catalog: ")),
            },
            print("Database 'droptest' dropped successfully."),
        ]
    );
    assert_eq!(current, None);
    c.apply(CatalogEdit::DropDatabase { db: s("droptest") });
    assert_eq!(c, catalog(&["other"]));

    let plan = DropDatabasePlan { database: s("nonexistent"), if_exists: true };
    assert_eq!(
        handle_drop_database(&c, &mut current, &plan, &None),
        vec![print("Database 'nonexistent' does not exist (IF EXISTS specified, skipping).")]
    );
}

#[test]
fn dropping_another_database_keeps_the_session() {
    let c = catalog(&["a", "b"]);
    let mut current = Some(s("a"));
    let plan = DropDatabasePlan { database: s("b"), if_exists: false };
    assert_eq!(handle_drop_database(&c, &mut current, &plan, &None).len(), 5);
    assert_eq!(current, Some(s("a")));
    let plan = DropDatabasePlan { database: s("c"), if_exists: false };
    assert_eq!(
        handle_drop_database(&c, &mut current, &plan, &None),
        vec![print("Database 'c' does not exist.")]
    );
    let plan = DropDatabasePlan { database: s("a"), if_exists: false };
    assert_eq!(
        handle_drop_database(&c, &mut current, &plan, &Some(s("bad name"))),
        vec![Effect::Warn { text: s("bad name") }]
    );
    assert_eq!(current, Some(s("a")));
}

#[test]
fn use_selects_an_existing_database() {
    let mut current = None;
    assert_eq!(handle_use_database(&catalog(&[]), &mut current, "a"), "No databases found.");
    let c = catalog(&["a", "b"]);
    assert_eq!(handle_use_database(&c, &mut current, "a"), "Database 'a' selected.");
    assert_eq!(current, Some(s("a")));
    assert_eq!(handle_use_database(&c, &mut current, "B"), "Database 'B' does not exist.");
    assert_eq!(current, Some(s("a")));
}

#[test]
fn statements_need_a_database() {
    let none = None;
    let some = Some(s("db"));
    let report = EngineStep::Report(s(NO_DATABASE));
    let run = EngineStep::Run { db: s("db") };
    for step in [handle_select, handle_set_operation, handle_vacuum, handle_create_index] {
        assert_eq!(step(&none), report);
        assert_eq!(step(&some), run);
    }
    assert_eq!(handle_show_tables(&none), vec![print(NO_DATABASE)]);
    assert_eq!(handle_show_tables(&some), vec![Effect::ShowTables { db: s("db") }]);
}

#[test]
fn outcomes_are_reported() {
    assert_eq!(query_line(&QueryOutcome::Rows(0)), "0 row(s) returned.\n");
    assert_eq!(query_line(&QueryOutcome::ExecutionFailed(s("x"))), "Execution error: x");
    assert_eq!(query_line(&QueryOutcome::PlanFailed(s("x"))), "Planning error: x");
    assert_eq!(insert_query_line(&QueryOutcome::Rows(12)), "12 row(s) inserted.\n");
    assert_eq!(insert_query_line(&QueryOutcome::ExecutionFailed(s("x"))), "Insert execution error: x");
    assert_eq!(insert_query_line(&QueryOutcome::PlanFailed(s("x"))), "Insert planning error: x");
    assert_eq!(insert_line(&InsertOutcome::Inserted), "1 row inserted.");
    assert_eq!(insert_line(&InsertOutcome::Rejected), "Insert failed.");
    assert_eq!(insert_line(&InsertOutcome::Failed(s("x"))), "Insert error: x");
    assert_eq!(update_line(&ChangeOutcome::Changed(3)), "\nUpdated 3 row(s).");
    assert_eq!(update_line(&ChangeOutcome::Failed(s("x"))), "Update failed: x");
    assert_eq!(delete_line(&ChangeOutcome::Changed(0)), "\nDeleted 0 row(s).");
    assert_eq!(delete_line(&ChangeOutcome::Failed(s("x"))), "Delete failed: x");
    assert_eq!(unsupported_line("MERGE"), "Unsupported SQL statement: MERGE");
    assert_eq!(error_line("x"), "Error: x");
    let clean = VacuumOutcome::Done { pages_compacted: 0, dead_tuples: 0, indexes_rebuilt: 0 };
    assert_eq!(
        vacuum_lines("db", "t", &clean),
        vec![
            "VACUUM 'db.t' complete: 0 page(s) compacted, 0 dead tuple(s) reclaimed, 0 index(es) rebuilt.",
            "Table is already clean — nothing to do.",
        ]
    );
    let done = VacuumOutcome::Done { pages_compacted: 2, dead_tuples: 30, indexes_rebuilt: 1 };
    assert_eq!(
        vacuum_lines("db", "t", &done),
        vec!["VACUUM 'db.t' complete: 2 page(s) compacted, 30 dead tuple(s) reclaimed, 1 index(es) rebuilt."]
    );
    assert_eq!(vacuum_lines("db", "t", &VacuumOutcome::Failed(s("x"))), vec!["VACUUM failed: x"]);
    let plan = CreateIndexPlan {
        index_name: s("i"),
        table_name: s("t"),
        columns: vec![s("a"), s("b")],
    };
    assert_eq!(
        create_index_line("db", &plan, &Ok(7)),
        "Created index 'i' on db.t(a,b) with 7 entries."
    );
    assert_eq!(create_index_line("db", &plan, &Err(s("x"))), "Failed to create index: x");
}

fn num(n: i64) -> ExprNode {
    ExprNode::Constant(ConstantValue::Int(n))
}

fn negative(e: ExprNode) -> ExprNode {
    ExprNode::Binary { left: Box::new(num(0)), op: ArithOp::Sub, right: Box::new(e) }
}

fn given(expr: ExprNode) -> InsertValue {
    InsertValue { expr, fallback: s("fallback") }
}

fn text_value(t: &str) -> ExprNode {
    ExprNode::Constant(ConstantValue::Text(s(t)))
}

fn table() -> Table {
    let mut columns = vec![
        Column::new(s("id"), ColumnType::Int),
        Column::new(s("Val"), ColumnType::Varchar(10)),
        Column::new(s("n"), ColumnType::Int),
    ];
    columns[1].constraints.default = parse_literal(ColumnType::Varchar(10), "'d'");
    Table { columns }
}

fn insert(columns: &[&str], values: Vec<Vec<InsertValue>>) -> InsertPlan {
    InsertPlan {
        table: s("t"),
        columns: columns.iter().map(|c| s(c)).collect(),
        values,
        source_select: None,
    }
}

#[test]
fn negative_literals() {
    let rows = vec![
        vec![given(num(1)), given(negative(num(5)))],
        vec![given(num(2)), given(negative(num(10)))],
    ];
    let step = handle_insert(&catalog(&["neg_db"]), &Some(s("neg_db")), &insert(&[], rows));
    let row = |a: &str, b: &str| Effect::InsertRow {
        db: s("neg_db"),
        table: s("t"),
        values: vec![s(a), s(b)],
    };
    assert_eq!(step, InsertStep::Effects(vec![row("1", "-5"), row("2", "-10")]));
}

#[test]
fn named_columns_are_put_in_the_order_of_the_table() {
    let names = vec![s("N"), s("ID")];
    let row = vec![given(num(7)), given(num(1))];
    assert_eq!(row_to_literals(Some(&table()), &names, &row), vec!["1", "'d'", "7"]);
    // the table is not known: the row as it stands
    assert_eq!(row_to_literals(None, &names, &row), vec!["7", "1"]);
    // no column is named: the row as it stands
    assert_eq!(row_to_literals(Some(&table()), &vec![], &row), vec!["7", "1"]);
    // a name without a value
    let short = vec![given(num(7))];
    assert_eq!(row_to_literals(Some(&table()), &names, &short), vec!["NULL", "'d'", "7"]);
}

#[test]
fn insert_from_a_query_is_left_to_the_engine() {
    let mut plan = insert(&[], vec![]);
    plan.source_select = Some(row_selection("u", None));
    let c = catalog(&["db"]);
    assert_eq!(handle_insert(&c, &Some(s("db")), &plan), InsertStep::FromQuery { db: s("db") });
    assert_eq!(handle_insert(&c, &None, &plan), InsertStep::Effects(vec![print(NO_DATABASE)]));
}

#[test]
fn inserted_values_as_text() {
    assert_eq!(value_expr_to_string(&text_value("a'b"), "x"), "a'b");
    assert_eq!(value_expr_to_string(&negative(negative(num(3))), "x"), "--3");
    let case = ExprNode::Case { when_then_pairs: vec![], else_result: None };
    assert_eq!(value_expr_to_string(&case, "x"), "NULL");
    let column = ExprNode::Column(s("c"));
    assert_eq!(value_expr_to_string(&column, "x"), "x");
    assert_eq!(fallback_expr(&column), Some(&column));
    let hidden = negative(ExprNode::Column(s("c")));
    assert_eq!(value_expr_to_string(&hidden, "x"), "-x");
    assert_eq!(fallback_expr(&hidden), Some(&column));
    assert_eq!(fallback_expr(&negative(num(1))), None);
    assert_eq!(fallback_expr(&case), None);
    // only a subtraction from zero is a sign
    let sum = ExprNode::Binary {
        left: Box::new(num(0)),
        op: ArithOp::Add,
        right: Box::new(num(1)),
    };
    assert_eq!(value_expr_to_string(&sum, "x"), "x");
    let down = ExprNode::Binary {
        left: Box::new(num(1)),
        op: ArithOp::Sub,
        right: Box::new(num(1)),
    };
    assert_eq!(fallback_expr(&down), Some(&down));
}

#[test]
fn constants_as_text() {
    assert_eq!(constant_to_raw_string(&ConstantValue::Null), "NULL");
    assert_eq!(constant_to_raw_string(&ConstantValue::Int(i64::MIN)), "-9223372036854775808");
    assert_eq!(constant_to_raw_string(&ConstantValue::Float(s("0.5"))), "0.5");
    assert_eq!(constant_to_raw_string(&ConstantValue::Boolean(true)), "true");
    assert_eq!(constant_to_raw_string(&ConstantValue::Boolean(false)), "false");
}

#[test]
fn expressions_as_text() {
    let column = || ExprNode::Column(s("c"));
    assert_eq!(expr_to_debug_string(&ExprNode::Compound(vec![s("t"), s("c")])), "t.c");
    let product = ExprNode::Binary {
        left: Box::new(column()),
        op: ArithOp::Mul,
        right: Box::new(num(2)),
    };
    assert_eq!(expr_to_debug_string(&product), "c * 2");
    let ratio = ExprNode::Binary {
        left: Box::new(product),
        op: ArithOp::Div,
        right: Box::new(num(-3)),
    };
    assert_eq!(expr_to_debug_string(&ratio), "c * 2 / -3");
    let cast = ExprNode::Cast { expr: Box::new(column()), data_type: s("INT") };
    assert_eq!(expr_to_debug_string(&cast), "CAST(c AS INT)");
    let call = ExprNode::Function {
        name: s("F"),
        args: vec![FunctionArg::Star, FunctionArg::Expr(cast)],
    };
    assert_eq!(expr_to_debug_string(&call), "F(*, CAST(c AS INT))");
    let empty = ExprNode::Function { name: s("NOW"), args: vec![] };
    assert_eq!(expr_to_debug_string(&empty), "NOW()");
    let case = ExprNode::Case {
        when_then_pairs: vec![(column(), num(1)), (num(2), text_value("x"))],
        else_result: Some(Box::new(num(9))),
    };
    assert_eq!(expr_to_debug_string(&case), "CASE WHEN c THEN 1 WHEN 2 THEN x END ELSE 9");
    let plan: SelectPlan = row_selection("t", None);
    let sub = ExprNode::ScalarSubquery(SubqueryInfo { select: Box::new(plan) });
    assert_eq!(expr_to_debug_string(&sub), "(scalar subquery)");
}

fn assignments() -> Vec<Assignment> {
    vec![
        Assignment { column: s("name"), value: text_value("hex nut") },
        Assignment { column: s("price"), value: ExprNode::Constant(ConstantValue::Float(s("0.30"))) },
    ]
}

#[test]
fn rows_to_change_are_found_by_a_query() {
    let none = None;
    let predicate = || {
        Some(PredicateNode::Compare {
            left: ExprNode::Column(s("id")),
            op: CompareOp::Eq,
            right: num(2),
        })
    };
    assert_eq!(handle_update(&none, "t", predicate()), RowStep::Report(s(NO_DATABASE)));
    assert_eq!(handle_delete(&none, "t", predicate()), RowStep::Report(s(NO_DATABASE)));
    let db = Some(s("shop"));
    let step = RowStep::Select { db: s("shop"), query: row_selection("t", predicate()) };
    assert_eq!(handle_update(&db, "t", predicate()), step);
    assert_eq!(handle_delete(&db, "t", predicate()), step);
    let query = row_selection("t", predicate());
    assert_eq!(query.selection, predicate());
    assert_eq!(query.from[0].name, "t");
}

#[test]
fn every_found_row_has_a_place_or_none_is_changed() {
    let found = FoundRows::Rows(vec![(Some(1), Some(2)), (Some(1), Some(3))]);
    assert_eq!(locate(&found, "Delete"), Ok(vec![(1, 2), (1, 3)]));
    let found = FoundRows::Rows(vec![(Some(1), Some(2)), (Some(1), None)]);
    assert_eq!(
        locate(&found, "Delete"),
        Err(s("Delete failed: engine returned rows without heap locations"))
    );
    assert_eq!(
        locate(&FoundRows::PlanFailed(s("x")), "Delete"),
        Err(s("Delete failed: Plan error: x"))
    );
    assert_eq!(locate(&FoundRows::ExecutionFailed(s("x")), "Update"), Err(s("Update failed: x")));
}

#[test]
fn set_clauses_are_parsed_by_the_engine() {
    assert_eq!(set_clause_text(&assignments()), "name = hex nut, price = 0.30");
    let found = FoundRows::Rows(vec![(Some(1), Some(2))]);
    match continue_update(&found, &assignments()) {
        UpdateStep::Apply { pointers, assignments } => {
            assert_eq!(pointers, vec![(1, 2)]);
            let columns: Vec<String> = assignments.iter().map(|a| a.column.clone()).collect();
            assert_eq!(columns, vec!["name", "price"]);
        }
        UpdateStep::Report(line) => panic!("{}", line),
    }
    match update_rows(&found, None) {
        UpdateStep::Report(line) => assert_eq!(line, "Could not parse SET clause."),
        step => panic!("{:?}", step),
    }
    match update_rows(&FoundRows::ExecutionFailed(s("x")), None) {
        UpdateStep::Report(line) => assert_eq!(line, "Update failed: x"),
        step => panic!("{:?}", step),
    }
}

#[test]
fn catalog_edits() {
    let mut c = catalog(&["a", "b"]);
    c.apply(CatalogEdit::PutTable { db: s("a"), name: s("t"), table: table() });
    c.apply(CatalogEdit::PutTable { db: s("missing"), name: s("t"), table: table() });
    assert_eq!(c.table("a", "t"), Some(&table()));
    assert_eq!(c.table("b", "t"), None);
    assert_eq!(c.table("missing", "t"), None);
    let empty = || Table { columns: vec![] };
    c.apply(CatalogEdit::PutTable { db: s("a"), name: s("t"), table: empty() });
    assert_eq!(c.table("a", "t"), Some(&empty()));
    let view = || ViewDef { query_json: s("{}"), query: None };
    c.apply(CatalogEdit::PutView { db: s("b"), name: s("v"), view: view() });
    assert_eq!(c.databases.get("b").unwrap().views.get("v"), Some(&view()));
    c.apply(CatalogEdit::DropView { db: s("b"), name: s("v") });
    c.apply(CatalogEdit::DropTable { db: s("a"), name: s("t") });
    c.apply(CatalogEdit::DropTable { db: s("a"), name: s("t") });
    assert_eq!(c.databases.len(), 2);
    assert_eq!(c.databases.get("a").unwrap().tables.len(), 0);
    assert_eq!(c.databases.get("b").unwrap().views.len(), 0);
    assert_eq!(Catalog::new(), catalog(&[]));
}

#[test]
fn directories_hold_one_value_for_a_name() {
    let mut d: Directory<u8> = Directory::new();
    assert_eq!(d.len(), 0);
    d.insert(s("a"), 1);
    d.insert(s("b"), 2);
    d.insert(s("a"), 3);
    assert_eq!(d.len(), 2);
    assert_eq!(d.get("a"), Some(&3));
    assert!(!d.contains_key("A"));
    let mut listed: Vec<(String, u8)> =
        (0..d.len()).map(|i| (d.name_at(i).clone(), *d.value_at(i))).collect();
    listed.sort();
    assert_eq!(listed, vec![(s("a"), 3), (s("b"), 2)]);
    assert_eq!(d.remove("a"), Some(3));
    assert_eq!(d.remove("a"), None);
    assert_eq!(d.len(), 1);
}

#[test]
fn tables_know_their_columns() {
    let t = table();
    assert_eq!(t.schema(), vec![ColumnType::Int, ColumnType::Varchar(10), ColumnType::Int]);
    assert_eq!(t.column_position("VAL"), Some(1));
    assert_eq!(t.column_position("x"), None);
    assert_eq!(t.copy(), t);
    assert_eq!(t.columns[1].copy(), t.columns[1]);
}

#[test]
fn a_default_without_a_text_is_not_inserted() {
    let mut t = table();
    let least = DataValue::Numeric(NumericValue { unscaled: i128::MIN, scale: 0 });
    t.columns[1].constraints.default = Some(least);
    let names = vec![s("N"), s("ID")];
    let row = vec![given(num(7)), given(num(1))];
    assert_eq!(try_row_to_literals(Some(&t), &names, &row), None);
    // the default is not taken
    assert_eq!(try_row_to_literals(Some(&t), &vec![], &row), Some(vec![s("7"), s("1")]));
    let next = DataValue::Numeric(NumericValue { unscaled: i128::MIN + 1, scale: 2 });
    t.columns[1].constraints.default = Some(next);
    assert_eq!(
        try_row_to_literals(Some(&t), &names, &row),
        Some(vec![s("1"), s("-1701411834604692317316873037158841057.27"), s("7")])
    );
    let mut c = catalog(&["db"]);
    let least = DataValue::Numeric(NumericValue { unscaled: i128::MIN, scale: 0 });
    t.columns[1].constraints.default = Some(least);
    c.apply(CatalogEdit::PutTable { db: s("db"), name: s("t"), table: t });
    let plan = insert(&["n", "id"], vec![row]);
    assert_eq!(try_handle_insert(&c, &Some(s("db")), &plan), None);
    assert_eq!(
        try_handle_insert(&c, &None, &plan),
        Some(InsertStep::Effects(vec![print(NO_DATABASE)]))
    );
    let empty = insert(&["n", "id"], vec![]);
    assert_eq!(
        try_handle_insert(&c, &Some(s("db")), &empty),
        Some(InsertStep::Effects(vec![]))
    );
}

#[test]
fn a_database_name_must_not_lead_elsewhere() {
    assert_eq!(database_name_fault("shop-2_a"), None);
    assert_eq!(database_name_fault(""), Some(s("Invalid database name ''")));
    assert_eq!(database_name_fault("../x"), Some(s("Invalid database name '../x'")));
    assert_eq!(database_name_fault("caf\u{e9}"), Some(s("Invalid database name 'caf\u{e9}'")));
}
