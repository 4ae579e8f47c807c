//! The statements that need a selected database: each is planned in it, and without one the
//! statement is answered.

use vstd::prelude::*;
use crate::alter;
use crate::alter::{execute_alter_table, AlterTablePlan, HeapState};
use crate::catalog;
use crate::catalog::Catalog;
use crate::copy;
use crate::copy::{execute_create_table_as_select, rows_are_shown, QueryRows};
use crate::create;
use crate::create::{plan_create_table, clauses_are_sound, CreateTablePlan};
use crate::effects;
use crate::effects::{Effect, EffectView};
use crate::errors::{DbError, ErrorView};
use crate::indexes;
use crate::indexes::{execute_drop_index, IndexProbe};
use crate::row;
use crate::session;
use crate::tables;
use crate::tables::{
    execute_create_view, execute_drop_table, execute_drop_view, execute_truncate, CreateViewPlan,
};

verus! {

#[derive(Debug, PartialEq)]
pub struct DropTablePlan {
    pub table: String,
    pub if_exists: bool,
    pub cascade: bool,
}

#[derive(Debug, PartialEq)]
pub struct DropViewPlan {
    pub name: String,
    pub if_exists: bool,
}

#[derive(Debug, PartialEq)]
pub struct DropIndexPlan {
    pub index_name: String,
    pub table_name: String,
    pub if_exists: bool,
}

/// The answer to a statement that needs a database where none is selected.
pub open spec fn unanswered() -> Result<Seq<EffectView>, ErrorView> {
    Ok(seq![EffectView::Print { text: session::no_database_line() }])
}

/// Plans `CREATE TABLE` in the selected database.
pub fn handle_create_table(current_db: &Option<String>, params: &CreateTablePlan) -> (r: Vec<
    Effect,
>)
    requires
        current_db is Some ==> create::all_clauses_sound(params.columns@),
    ensures
        effects::shown(r@) == match *current_db {
            Some(db) => create::create_table(db@, *params),
            None => unanswered()->Ok_0,
        },
{
    match current_db {
        Some(db) => plan_create_table(db.as_str(), params),
        None => session::no_database(),
    }
}

/// Plans `CREATE TABLE` in the selected database where every column clause can be cut out of its
/// text; gives nothing where one cannot.
pub fn try_handle_create_table(current_db: &Option<String>, params: &CreateTablePlan) -> (r: Option<
    Vec<Effect>,
>)
    ensures
        r is None <==> current_db is Some && !create::all_clauses_sound(params.columns@),
        r is Some ==> effects::shown(r->0@) == match *current_db {
            Some(db) => create::create_table(db@, *params),
            None => unanswered()->Ok_0,
        },
{
    if current_db.is_some() && !clauses_are_sound(&params.columns) {
        None
    } else {
        Some(handle_create_table(current_db, params))
    }
}

/// Plans `DROP TABLE` in the selected database.
pub fn handle_drop_table(
    catalog: &Catalog,
    current_db: &Option<String>,
    params: &DropTablePlan,
    foreign_keys: &Result<Vec<String>, String>,
) -> (r: Result<Vec<Effect>, DbError>)
    ensures
        match *current_db {
            Some(db) => exists|views: Seq<Seq<char>>| #[trigger]
                tables::dependents(catalog@, db@, params.table@, views) && effects::outcome(r)
                    == tables::drop_table(
                    catalog@,
                    db@,
                    params.table@,
                    params.if_exists,
                    params.cascade,
                    views,
                    tables::keys_view(*foreign_keys),
                ),
            None => effects::outcome(r) == unanswered(),
        },
{
    match current_db {
        Some(db) => execute_drop_table(
            catalog,
            db.as_str(),
            params.table.as_str(),
            params.if_exists,
            params.cascade,
            foreign_keys,
        ),
        None => Ok(session::no_database()),
    }
}

/// Plans `ALTER TABLE` in the selected database.
pub fn handle_alter_table(
    catalog: &Catalog,
    current_db: &Option<String>,
    params: &AlterTablePlan,
    action_text: &str,
    heap: &HeapState,
) -> (r: Result<Vec<Effect>, DbError>)
    requires
        current_db matches Some(db) ==> (alter::rewrites(params.action) && catalog::has_table(
            catalog@,
            db@,
            params.table@,
        ) ==> (*heap matches HeapState::Open { rows, .. } ==> row::scan_readable(
            catalog::schema_of(catalog@[db@].tables[params.table@]),
            rows@,
        ))),
    ensures
        effects::outcome(r) == match *current_db {
            Some(db) => alter::alter_table(
                catalog@,
                db@,
                params.table@,
                params.action,
                action_text@,
                *heap,
            ),
            None => unanswered(),
        },
        current_db matches Some(db) ==> (alter::rewrites(params.action) ==> (r is Ok
            <==> alter::can_rewrite(catalog@, db@, params.table@, params.action, *heap))),
{
    match current_db {
        Some(db) => execute_alter_table(catalog, db.as_str(), params, action_text, heap),
        None => Ok(session::no_database()),
    }
}

/// Plans `CREATE VIEW` in the selected database.
pub fn handle_create_view(
    catalog: &Catalog,
    current_db: &Option<String>,
    params: CreateViewPlan,
    query_json: Result<String, String>,
) -> (r: Result<Vec<Effect>, DbError>)
    ensures
        effects::outcome(r) == match *current_db {
            Some(db) => tables::create_view(
                catalog@,
                db@,
                params.name@,
                params.or_replace,
                params.query,
                match query_json {
                    Ok(json) => Ok::<Seq<char>, Seq<char>>(json@),
                    Err(e) => Err(e@),
                },
            ),
            None => unanswered(),
        },
{
    match current_db {
        Some(db) => execute_create_view(catalog, db.as_str(), params, query_json),
        None => Ok(session::no_database()),
    }
}

/// Plans `DROP VIEW` in the selected database.
pub fn handle_drop_view(catalog: &Catalog, current_db: &Option<String>, params: &DropViewPlan) -> (r:
    Result<Vec<Effect>, DbError>)
    ensures
        effects::outcome(r) == match *current_db {
            Some(db) => tables::drop_view(catalog@, db@, params.name@, params.if_exists),
            None => unanswered(),
        },
{
    match current_db {
        Some(db) => execute_drop_view(
            catalog,
            db.as_str(),
            params.name.as_str(),
            params.if_exists,
        ),
        None => Ok(session::no_database()),
    }
}

/// Plans `TRUNCATE` in the selected database.
pub fn handle_truncate(catalog: &Catalog, current_db: &Option<String>, table: &str) -> (r: Result<
    Vec<Effect>,
    DbError,
>)
    ensures
        effects::outcome(r) == match *current_db {
            Some(db) => tables::truncate(catalog@, db@, table@),
            None => unanswered(),
        },
{
    match current_db {
        Some(db) => execute_truncate(catalog, db.as_str(), table),
        None => Ok(session::no_database()),
    }
}

/// Plans `CREATE TABLE .. AS SELECT` in the selected database. The values that are copied must
/// have texts.
pub fn handle_create_table_as_select(
    catalog: &Catalog,
    current_db: &Option<String>,
    table: &str,
    rows: &QueryRows,
) -> (r: Result<Vec<Effect>, DbError>)
    requires
        current_db matches Some(db) ==> (copy::is_new(catalog@, db@, table@)
            ==> copy::rows_have_text(*rows)),
    ensures
        effects::outcome(r) == match *current_db {
            Some(db) => copy::create_table_as(catalog@, db@, table@, *rows),
            None => unanswered(),
        },
{
    match current_db {
        Some(db) => execute_create_table_as_select(catalog, db.as_str(), table, rows),
        None => Ok(session::no_database()),
    }
}

/// Plans `CREATE TABLE .. AS SELECT` in the selected database; no plan where a value to copy has
/// no text.
pub fn try_handle_create_table_as_select(
    catalog: &Catalog,
    current_db: &Option<String>,
    table: &str,
    rows: &QueryRows,
) -> (r: Option<Result<Vec<Effect>, DbError>>)
    ensures
        r is None <==> (*current_db is Some && copy::is_new(
            catalog@,
            (*current_db)->0@,
            table@,
        ) && !copy::rows_have_text(*rows)),
        r is Some ==> effects::outcome(r->0) == match *current_db {
            Some(db) => copy::create_table_as(catalog@, db@, table@, *rows),
            None => unanswered(),
        },
{
    if let Some(db) = current_db {
        if catalog.databases.contains_key(db.as_str()) && catalog.table(
            db.as_str(),
            table,
        ).is_none() && !rows_are_shown(rows) {
            return None;
        }
    }
    Some(handle_create_table_as_select(catalog, current_db, table, rows))
}

/// Plans `DROP INDEX` in the selected database.
pub fn handle_drop_index(
    catalog: &Catalog,
    current_db: &Option<String>,
    params: &DropIndexPlan,
    probe: &IndexProbe,
) -> (r: Result<Vec<Effect>, DbError>)
    ensures
        effects::outcome(r) == match *current_db {
            Some(db) => indexes::drop_index(
                catalog@,
                db@,
                params.index_name@,
                params.table_name@,
                params.if_exists,
                *probe,
            ),
            None => unanswered(),
        },
{
    match current_db {
        Some(db) => execute_drop_index(
            catalog,
            db.as_str(),
            params.index_name.as_str(),
            params.table_name.as_str(),
            params.if_exists,
            probe,
        ),
        None => Ok(session::no_database()),
    }
}

/// Without a selected database a statement that needs one prints what to do, and does nothing.
pub proof fn law_statements_without_a_database_are_answered()
    ensures
        unanswered() is Ok,
        unanswered()->Ok_0.len() == 1,
        unanswered()->Ok_0[0] == (EffectView::Print {
            text: "No database selected. Use 'USE <database>' first."@,
        }),
{
}

} // verus!
