use rookdb::alter::{
    execute_alter_table, AlterTableAction, AlterTablePlan, ColumnDef, HeapState, HEADER_PAGE_BYTES,
};
use rookdb::ast::{ConstantValue, ExprNode};
use rookdb::catalog::{Catalog, Column, Database, Table};
use rookdb::copy::literal_texts;
use rookdb::datatype::{parse_literal, ColumnType};
use rookdb::directory::Directory;
use rookdb::dml::{continue_update, set_clause_text, Assignment, FoundRows, UpdateStep};
use rookdb::effects::Effect;
use rookdb::errors::{DbError, ErrorKind};
use rookdb::row::{
    column_is_null, migrate_row, migrate_rows, row_is_readable, scan_is_readable, RowChange,
};
use rookdb::tables::execute_drop_table;
use storage_manager::types::row::serialize_nullable_typed_row;
use storage_manager::types::{deserialize_nullable_row, DataType, DataValue};

fn s(t: &str) -> String {
    t.to_string()
}

fn text(t: &str) -> Option<DataValue> {
    Some(DataValue::Varchar(s(t)))
}

fn whole(n: i32) -> Option<DataValue> {
    Some(DataValue::Int(n))
}

fn encode(types: &[DataType], values: &[Option<DataValue>]) -> Vec<u8> {
    serialize_nullable_typed_row(types, values).unwrap()
}

fn decode(types: &[DataType], row: &[u8]) -> Vec<Option<DataValue>> {
    deserialize_nullable_row(types, row).unwrap()
}

const PEOPLE: [ColumnType; 3] = [ColumnType::Int, ColumnType::Varchar(20), ColumnType::Varchar(20)];

fn people_types() -> Vec<DataType> {
    vec![DataType::Int, DataType::Varchar(20), DataType::Varchar(20)]
}

fn alice() -> Vec<u8> {
    encode(&people_types(), &[whole(1), text("Alice"), text("temp")])
}

fn bob() -> Vec<u8> {
    encode(&people_types(), &[whole(2), text("Bob"), None])
}

#[test]
fn a_row_gets_a_null_column() {
    let old = PEOPLE.to_vec();
    let mut new = PEOPLE.to_vec();
    new.push(ColumnType::DoublePrecision);
    let row = migrate_row(RowChange::AppendNull, &old, &new, "X", &bob()).unwrap();
    let mut types = people_types();
    types.push(DataType::DoublePrecision);
    assert_eq!(decode(&types, &row), vec![whole(2), text("Bob"), None, None]);
    assert!(column_is_null(&row, 3));
    assert!(!column_is_null(&row, 1));
}

#[test]
fn a_row_loses_a_column() {
    let old = PEOPLE.to_vec();
    let new = vec![ColumnType::Int, ColumnType::Varchar(20)];
    let types = vec![DataType::Int, DataType::Varchar(20)];
    let row = migrate_row(RowChange::Remove(1), &old, &new, "X", &alice()).unwrap();
    assert_eq!(decode(&types, &row), vec![whole(1), text("temp")]);
    let row = migrate_row(RowChange::Remove(1), &old, &new, "X", &bob()).unwrap();
    assert_eq!(decode(&types, &row), vec![whole(2), None]);
}

#[test]
fn a_row_that_cannot_be_read_stops_the_change() {
    let old = PEOPLE.to_vec();
    let new = vec![ColumnType::Int, ColumnType::Varchar(20)];
    let short = vec![3u8, 0, 2];
    assert!(row_is_readable(&old, &short));
    let e = migrate_row(RowChange::Remove(1), &old, &new, "DROP COLUMN", &short).unwrap_err();
    assert_eq!(e.kind, ErrorKind::InvalidData);
    assert!(e.message.starts_with("Failed to deserialize row during DROP COLUMN: "));
}

#[test]
fn the_first_error_of_a_scan_ends_it() {
    let old = PEOPLE.to_vec();
    let new = vec![ColumnType::Int, ColumnType::Varchar(20)];
    let fault = || DbError { kind: ErrorKind::Other, message: s("torn page") };
    let rows = vec![Ok(alice()), Err(fault()), Ok(vec![1])];
    assert_eq!(migrate_rows(RowChange::Remove(2), &old, &new, "X", &rows), Err(fault()));
    let rows = vec![Ok(alice()), Ok(bob())];
    let out = migrate_rows(RowChange::Remove(2), &old, &new, "X", &rows).unwrap();
    let types = vec![DataType::Int, DataType::Varchar(20)];
    assert_eq!(decode(&types, &out[0]), vec![whole(1), text("Alice")]);
    assert_eq!(decode(&types, &out[1]), vec![whole(2), text("Bob")]);
}

#[test]
fn rows_with_stray_offsets_are_not_read() {
    let schema = PEOPLE.to_vec();
    let good = alice();
    assert!(row_is_readable(&schema, &good));
    // the offset table of two columns stands behind the header and a one-byte bitmap
    let mut far = good.clone();
    far[7] = 0xff;
    far[8] = 0xff;
    assert!(!row_is_readable(&schema, &far));
    let mut crossed = good.clone();
    crossed[5] = good[7];
    crossed[7] = good[5];
    assert!(!row_is_readable(&schema, &crossed));
    assert!(row_is_readable(&schema, &vec![]));
    assert!(scan_is_readable(&schema, &vec![Ok(good.clone()), Ok(bob())]));
    assert!(!scan_is_readable(&schema, &vec![Ok(good), Ok(far)]));
    let fault = DbError { kind: ErrorKind::Other, message: s("x") };
    assert!(scan_is_readable(&schema, &vec![Err(fault)]));
}

#[test]
fn null_flags_are_read_bit_by_bit() {
    let row = vec![10, 0, 0, 0, 0b1000_0001, 0b0000_0010];
    let flags: Vec<bool> = (0..11).map(|i| column_is_null(&row, i)).collect();
    let set: Vec<usize> = (0..11).filter(|i| flags[*i]).collect();
    assert_eq!(set, vec![0, 7, 9]);
    assert!(!column_is_null(&vec![10, 0, 0, 0, 0xff], 0));
    assert!(!column_is_null(&vec![10, 0, 0], 0));
}

#[test]
fn literals_are_values_of_their_type() {
    assert_eq!(parse_literal(ColumnType::SmallInt, " 7 "), Some(DataValue::SmallInt(7)));
    assert_eq!(parse_literal(ColumnType::Bool, "T"), Some(DataValue::Bool(true)));
    assert_eq!(parse_literal(ColumnType::Varchar(3), "'abc'"), text("abc"));
    assert_eq!(parse_literal(ColumnType::Varchar(3), "'abcd'"), None);
    assert_eq!(parse_literal(ColumnType::Int, "seven"), None);
    assert_eq!(parse_literal(ColumnType::Char(3), "ab"), Some(DataValue::Char(s("ab "))));
}

fn database(name: &str, table: &str, columns: Vec<Column>) -> Catalog {
    let mut tables = Directory::new();
    tables.insert(s(table), Table { columns });
    let mut databases = Directory::new();
    databases.insert(s(name), Database { tables, views: Directory::new() });
    Catalog { databases }
}

fn people() -> Catalog {
    database(
        "dropcol_db",
        "t",
        vec![
            Column::new(s("id"), ColumnType::Int),
            Column::new(s("name"), ColumnType::Varchar(20)),
            Column::new(s("extra"), ColumnType::Varchar(20)),
        ],
    )
}

fn heap() -> HeapState {
    let bob = encode(&people_types(), &[whole(2), text("Bob"), text("temp2")]);
    HeapState::Open { rows: vec![Ok(alice()), Ok(bob)], size: Some(2 * HEADER_PAGE_BYTES) }
}

fn drop_extra() -> AlterTablePlan {
    AlterTablePlan { table: s("t"), action: AlterTableAction::DropColumn { column: s("extra") } }
}

fn written(plan: &[Effect]) -> Option<(&str, &Vec<Vec<u8>>)> {
    plan.iter().find_map(|e| match e {
        Effect::WriteHeap { path, rows, .. } => Some((path.as_str(), rows)),
        _ => None,
    })
}

#[test]
fn alter_table_drop_column() {
    let text_of_action = "DropColumn { column: \"extra\" }";
    let plan = execute_alter_table(&people(), "dropcol_db", &drop_extra(), text_of_action, &heap()).unwrap();
    assert!(plan.contains(&Effect::Print {
        text: s("Altered table 't': DropColumn { column: \"extra\" }."),
    }));
    let types = [DataType::Int, DataType::Varchar(20)];
    let (path, rows) = written(&plan).unwrap();
    assert_eq!(path, "database/base/dropcol_db/t.dat.backfill");
    let rows: Vec<_> = rows.iter().map(|r| decode(&types, r)).collect();
    assert_eq!(rows, vec![vec![whole(1), text("Alice")], vec![whole(2), text("Bob")]]);
    assert!(plan.contains(&Effect::RenameFileOrFail {
        from: s("database/base/dropcol_db/t.dat.backfill"),
        to: s("database/base/dropcol_db/t.dat"),
        context: s("Failed to rename backfill heap: "),
    }));
}

#[test]
fn alter_table_drop_column_select_star() {
    let plan = execute_alter_table(&people(), "dropcol_db", &drop_extra(), "", &heap()).unwrap();
    let types = [DataType::Int, DataType::Varchar(20)];
    let rows: Vec<_> = written(&plan).unwrap().1.iter().map(|r| decode(&types, r)).collect();
    let mut catalog = people();
    for effect in plan {
        if let Effect::Edit { edit } = effect {
            catalog.apply(edit);
        }
    }
    let columns = &catalog.table("dropcol_db", "t").unwrap().columns;
    let names: Vec<&str> = columns.iter().map(|c| c.name.as_str()).collect();
    assert_eq!(names, vec!["id", "name"]);
    let out = rows.iter().map(|r| literal_texts(r).join(" | ")).collect::<Vec<_>>().join("\n");
    assert!(out.contains("Alice"));
    assert!(out.contains("Bob"));
    assert!(!out.contains("'temp'"));
    assert!(!out.contains("'temp2'"));
    assert_eq!(out, "1 | 'Alice'\n2 | 'Bob'");
}

#[test]
fn a_heap_without_rows_is_written_anew() {
    let heap = HeapState::Open { rows: vec![], size: Some(HEADER_PAGE_BYTES) };
    let plan = execute_alter_table(&people(), "dropcol_db", &drop_extra(), "", &heap).unwrap();
    assert_eq!(written(&plan), Some(("database/base/dropcol_db/t.dat.backfill", &vec![])));
    let plan =
        execute_alter_table(&people(), "dropcol_db", &drop_extra(), "", &HeapState::Missing).unwrap();
    assert_eq!(written(&plan), None);
}

#[test]
fn not_null_is_validated_against_the_rows() {
    let set = |column: &str| AlterTablePlan {
        table: s("t"),
        action: AlterTableAction::SetNotNull { column: s(column) },
    };
    let heap = HeapState::Open {
        rows: vec![Ok(alice()), Ok(bob())],
        size: Some(2 * HEADER_PAGE_BYTES),
    };
    let e = execute_alter_table(&people(), "dropcol_db", &set("extra"), "", &heap).unwrap_err();
    assert_eq!(e.kind, ErrorKind::InvalidInput);
    assert_eq!(
        e.message,
        "Table 't' contains NULL values in column 'extra'; cannot alter to NOT NULL"
    );
    assert!(execute_alter_table(&people(), "dropcol_db", &set("name"), "", &heap).is_ok());
    // a heap that has no data page is not scanned
    let heap = HeapState::Open { rows: vec![Ok(bob())], size: Some(HEADER_PAGE_BYTES) };
    assert!(execute_alter_table(&people(), "dropcol_db", &set("extra"), "", &heap).is_ok());
    let heap = HeapState::Open { rows: vec![Ok(bob())], size: None };
    assert!(execute_alter_table(&people(), "dropcol_db", &set("extra"), "", &heap).is_err());
}

#[test]
fn ddl_lifecycle_values() {
    let types = vec![DataType::Int, DataType::Varchar(30), DataType::DoublePrecision];
    let item = |id: i32, name: &str, price: &str| {
        let price = parse_literal(ColumnType::DoublePrecision, price);
        Ok(encode(&types, &[whole(id), text(name), price]))
    };
    let mut shop = database(
        "shop",
        "items",
        vec![
            Column::new(s("id"), ColumnType::Int),
            Column::new(s("name"), ColumnType::Varchar(30)),
            Column::new(s("price"), ColumnType::DoublePrecision),
        ],
    );
    let heap = HeapState::Open {
        rows: vec![item(1, "bolt", "0.25"), item(2, "nut", "0.10"), item(3, "washer", "1.50")],
        size: Some(2 * HEADER_PAGE_BYTES),
    };
    let alter = AlterTablePlan {
        table: s("items"),
        action: AlterTableAction::AddColumn {
            column_def: ColumnDef { name: s("stock"), data_type: s("INT"), constraints: vec![] },
        },
    };
    let plan = execute_alter_table(&shop, "shop", &alter, "AddColumn", &heap).unwrap();
    let mut with_stock = types.clone();
    with_stock.push(DataType::Int);
    let rows: Vec<_> = written(&plan)
        .unwrap()
        .1
        .iter()
        .map(|r| decode(&with_stock, r))
        .map(|r| (r[0].clone(), r[3].clone()))
        .collect();
    assert_eq!(rows, vec![(whole(1), None), (whole(2), None), (whole(3), None)]);
    for effect in plan {
        if let Effect::Edit { edit } = effect {
            shop.apply(edit);
        }
    }
    assert_eq!(shop.table("shop", "items").unwrap().columns.len(), 4);
    // the change of one row is asked for in its place alone
    let value = ExprNode::Constant(ConstantValue::Int(42));
    let list = vec![Assignment { column: s("stock"), value }];
    assert_eq!(set_clause_text(&list), "stock = 42");
    match continue_update(&FoundRows::Rows(vec![(Some(1), Some(1))]), &list) {
        UpdateStep::Apply { pointers, assignments } => {
            assert_eq!(pointers, vec![(1, 1)]);
            assert_eq!(assignments.len(), 1);
        }
        UpdateStep::Report(line) => panic!("{}", line),
    }
    let plan = execute_drop_table(&shop, "shop", "items", false, false, &Ok(vec![])).unwrap();
    for effect in plan {
        if let Effect::Edit { edit } = effect {
            shop.apply(edit);
        }
    }
    assert!(shop.table("shop", "items").is_none());
}

#[test]
fn a_column_is_dropped_only_where_every_row_decodes() {
    assert!(execute_alter_table(&people(), "dropcol_db", &drop_extra(), "", &heap()).is_ok());
    let rows = vec![Ok(alice()), Ok(vec![0u8; 2])];
    let heap = HeapState::Open { rows, size: Some(2 * HEADER_PAGE_BYTES) };
    let e = execute_alter_table(&people(), "dropcol_db", &drop_extra(), "", &heap).unwrap_err();
    assert_eq!(e.kind, ErrorKind::InvalidData);
    assert!(e.message.starts_with("Failed to deserialize row during drop-column backfill: "));
}
