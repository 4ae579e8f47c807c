//! The session: which database is selected, and the answers that do not depend on the catalog's
//! tables.

use vstd::prelude::*;
use crate::catalog::{Catalog, CatalogEdit, DatabaseView, EditView};
use crate::effects;
use crate::effects::{Effect, EffectView};
use crate::files;
use crate::text;

verus! {

/// What became of a query.
#[derive(Debug, PartialEq)]
pub enum QueryOutcome {
    PlanFailed(String),
    ExecutionFailed(String),
    /// It gave this many rows.
    Rows(usize),
}

pub open spec fn no_database_line() -> Seq<char> {
    "No database selected. Use 'USE <database>' first."@
}

pub fn no_database_text() -> (r: String)
    ensures
        r@ == no_database_line(),
{
    "No database selected. Use 'USE <database>' first.".to_owned()
}

/// The answer to a statement that needs a database where none is selected.
pub fn no_database() -> (r: Vec<Effect>)
    ensures
        effects::shown(r@) == seq![EffectView::Print { text: no_database_line() }],
{
    let mut out: Vec<Effect> = Vec::new();
    out.push(Effect::Print { text: no_database_text() });
    assert(effects::shown(out@) =~= seq![EffectView::Print { text: no_database_line() }]);
    out
}

/// The name of the selected database.
pub open spec fn selected(current_db: Option<String>) -> Option<Seq<char>> {
    match current_db {
        Some(db) => Some(db@),
        None => None,
    }
}

#[derive(Debug, PartialEq)]
pub struct CreateDatabasePlan {
    pub database: String,
}

#[derive(Debug, PartialEq)]
pub struct DropDatabasePlan {
    pub database: String,
    pub if_exists: bool,
}

/// Plans `CREATE DATABASE`.
pub fn handle_create_database(params: &CreateDatabasePlan) -> (r: Vec<Effect>)
    ensures
        effects::shown(r@) == seq![
            EffectView::CreateDatabase { db: params.database@ },
            EffectView::Print {
                text: "Database '"@ + params.database@ + "' created successfully."@,
            },
        ],
{
    let mut out: Vec<Effect> = Vec::new();
    out.push(Effect::CreateDatabase { db: params.database.clone() });
    out.push(
        Effect::Print {
            text: text::cat3("Database '", params.database.as_str(), "' created successfully."),
        },
    );
    assert(effects::shown(out@) =~= seq![
        EffectView::CreateDatabase { db: params.database@ },
        EffectView::Print { text: "Database '"@ + params.database@ + "' created successfully."@ },
    ]);
    out
}

/// A character that a database's directory may have in its name.
pub open spec fn is_directory_char(c: char) -> bool {
    'a' <= c <= 'z' || 'A' <= c <= 'Z' || '0' <= c <= '9' || c == '_' || c == '-'
}

/// The name can be that of a directory of its own, and leads to no other.
pub open spec fn is_directory_name(name: Seq<char>) -> bool {
    &&& name.len() > 0
    &&& forall|i: int| 0 <= i < name.len() ==> is_directory_char(#[trigger] name[i])
}

/// What is wrong with a name whose directory is to be removed, if anything is.
///
/// The rule is this library's own, and `CREATE DATABASE` does not apply it: a database whose name
/// is at fault can be made, but not dropped.
pub fn database_name_fault(name: &str) -> (r: Option<String>)
    ensures
        r is None <==> is_directory_name(name@),
        r is Some ==> r->0@ == "Invalid database name '"@ + name@ + "'"@,
{
    let v = text::chars_of(name);
    let mut plain = v.len() > 0;
    let mut i: usize = 0;
    while i < v.len()
        invariant
            i <= v.len(),
            v@ == name@,
            plain == (v.len() > 0 && forall|j: int|
                0 <= j < i ==> is_directory_char(#[trigger] name@[j])),
        decreases v.len() - i,
    {
        let c = v[i];
        let fits = ('a' <= c && c <= 'z') || ('A' <= c && c <= 'Z') || ('0' <= c && c <= '9') || c
            == '_' || c == '-';
        assert(fits == is_directory_char(name@[i as int]));
        plain = plain && fits;
        i = i + 1;
    }
    if plain {
        None
    } else {
        Some(text::cat3("Invalid database name '", name, "'"))
    }
}

/// What `DROP DATABASE` does. `name_fault` says what is wrong with the name, if anything is.
pub open spec fn drop_database(
    c: Map<Seq<char>, DatabaseView>,
    db: Seq<char>,
    if_exists: bool,
    name_fault: Option<Seq<char>>,
) -> Seq<EffectView> {
    if name_fault is Some {
        seq![EffectView::Warn { text: name_fault->0 }]
    } else if !c.contains_key(db) {
        if if_exists {
            seq![
                EffectView::Print {
                    text: "Database '"@ + db + "' does not exist (IF EXISTS specified, skipping)."@,
                },
            ]
        } else {
            seq![EffectView::Print { text: "Database '"@ + db + "' does not exist."@ }]
        }
    } else {
        seq![
            EffectView::Edit { edit: EditView::DropDatabase { db } },
            EffectView::RemoveDir { path: files::base_dir(db) },
            EffectView::DeleteDatabaseMetadata {
                db,
                warning: "[DropDatabase] Warning: failed to clean up system table metadata: "@,
            },
            EffectView::SaveCatalog {
                warning: Some("[DropDatabase] Warning: failed to save catalog: "@),
            },
            EffectView::Print { text: "Database '"@ + db + "' dropped successfully."@ },
        ]
    }
}

/// Plans `DROP DATABASE`. The session leaves a database that it drops.
pub fn handle_drop_database(
    catalog: &Catalog,
    current_db: &mut Option<String>,
    params: &DropDatabasePlan,
    name_fault: &Option<String>,
) -> (r: Vec<Effect>)
    ensures
        effects::shown(r@) == drop_database(
            catalog@,
            params.database@,
            params.if_exists,
            selected(*name_fault),
        ),
        selected(*final(current_db)) == if name_fault is None && catalog@.contains_key(
            params.database@,
        ) && selected(*old(current_db)) == Some(params.database@) {
            None
        } else {
            selected(*old(current_db))
        },
{
    let db = params.database.as_str();
    let mut out: Vec<Effect> = Vec::new();
    if let Some(fault) = name_fault {
        out.push(Effect::Warn { text: fault.clone() });
    } else if !catalog.databases.contains_key(db) {
        let line = if params.if_exists {
            text::cat3("Database '", db, "' does not exist (IF EXISTS specified, skipping).")
        } else {
            text::cat3("Database '", db, "' does not exist.")
        };
        out.push(Effect::Print { text: line });
    } else {
        out.push(Effect::Edit { edit: CatalogEdit::DropDatabase { db: db.to_owned() } });
        out.push(Effect::RemoveDir { path: files::base_path(db) });
        out.push(
            Effect::DeleteDatabaseMetadata {
                db: db.to_owned(),
                warning: "[DropDatabase] Warning: failed to clean up system table metadata: ".to_owned(),
            },
        );
        out.push(
            Effect::SaveCatalog {
                warning: Some("[DropDatabase] Warning: failed to save catalog: ".to_owned()),
            },
        );
        out.push(Effect::Print { text: text::cat3("Database '", db, "' dropped successfully.") });
        let leave = match &*current_db {
            Some(cur) => text::same_text(cur.as_str(), db),
            None => false,
        };
        if leave {
            *current_db = None;
        }
    }
    assert(effects::shown(out@) =~= drop_database(
        catalog@,
        params.database@,
        params.if_exists,
        selected(*name_fault),
    ));
    out
}

/// The catalog holds no database.
pub open spec fn no_databases(c: Map<Seq<char>, DatabaseView>) -> bool {
    forall|k: Seq<char>| !c.contains_key(k)
}

/// Carries out `USE`: an existing database is selected, and nothing else changes the selection.
pub fn handle_use_database(catalog: &Catalog, current_db: &mut Option<String>, db_name: &str) -> (r:
    String)
    ensures
        selected(*final(current_db)) == if catalog@.contains_key(db_name@) {
            Some(db_name@)
        } else {
            selected(*old(current_db))
        },
        r@ == if no_databases(catalog@) {
            "No databases found."@
        } else if catalog@.contains_key(db_name@) {
            "Database '"@ + db_name@ + "' selected."@
        } else {
            "Database '"@ + db_name@ + "' does not exist."@
        },
{
    let n: usize = catalog.databases.len();
    if n == 0 {
        assert(no_databases(catalog@)) by {
            assert forall|k: Seq<char>| !catalog@.contains_key(k) by {
                assert(!catalog.databases.names().contains(k));
            }
        }
        "No databases found.".to_owned()
    } else {
        assert(!no_databases(catalog@)) by {
            let k = catalog.databases.names()[0];
            assert(catalog.databases.names().contains(k));
        }
        if catalog.databases.contains_key(db_name) {
            *current_db = Some(db_name.to_owned());
            text::cat3("Database '", db_name, "' selected.")
        } else {
            text::cat3("Database '", db_name, "' does not exist.")
        }
    }
}

/// Plans `SHOW DATABASES`.
pub fn handle_show_databases() -> (r: Vec<Effect>)
    ensures
        effects::shown(r@) == seq![EffectView::ShowDatabases],
{
    let mut out: Vec<Effect> = Vec::new();
    out.push(Effect::ShowDatabases);
    assert(effects::shown(out@) =~= seq![EffectView::ShowDatabases]);
    out
}

/// Plans `SHOW TABLES`.
pub fn handle_show_tables(current_db: &Option<String>) -> (r: Vec<Effect>)
    ensures
        effects::shown(r@) == match *current_db {
            Some(db) => seq![EffectView::ShowTables { db: db@ }],
            None => seq![EffectView::Print { text: no_database_line() }],
        },
{
    match current_db {
        Some(db) => {
            let mut out: Vec<Effect> = Vec::new();
            out.push(Effect::ShowTables { db: db.clone() });
            assert(effects::shown(out@) =~= seq![EffectView::ShowTables { db: db@ }]);
            out
        },
        None => no_database(),
    }
}

/// The next step of a statement that the engine carries out in the selected database.
#[derive(Debug, PartialEq)]
pub enum EngineStep {
    /// Print this line; the statement is over.
    Report(String),
    /// Hand the statement to the engine, for this database.
    Run { db: String },
}

/// The statement runs in the selected database, and without one it is answered.
pub open spec fn runs_in(r: EngineStep, current_db: Option<String>) -> bool {
    match current_db {
        None => r matches EngineStep::Report(line) && line@ == no_database_line(),
        Some(db) => r matches EngineStep::Run { db: d } && d@ == db@,
    }
}

fn in_database(current_db: &Option<String>) -> (r: EngineStep)
    ensures
        runs_in(r, *current_db),
{
    match current_db {
        None => EngineStep::Report(no_database_text()),
        Some(db) => EngineStep::Run { db: db.clone() },
    }
}

/// Plans `SELECT`.
pub fn handle_select(current_db: &Option<String>) -> (r: EngineStep)
    ensures
        runs_in(r, *current_db),
{
    in_database(current_db)
}

/// Plans `UNION`, `INTERSECT` and `EXCEPT`.
pub fn handle_set_operation(current_db: &Option<String>) -> (r: EngineStep)
    ensures
        runs_in(r, *current_db),
{
    in_database(current_db)
}

/// The line that reports a query.
pub fn query_line(o: &QueryOutcome) -> (r: String)
    ensures
        r@ == match *o {
            QueryOutcome::Rows(n) => text::decimal(n as nat) + " row(s) returned.\n"@,
            QueryOutcome::ExecutionFailed(e) => "Execution error: "@ + e@,
            QueryOutcome::PlanFailed(e) => "Planning error: "@ + e@,
        },
{
    match o {
        QueryOutcome::Rows(n) => {
            let count = text::decimal_text(*n as u128);
            text::cat2(count.as_str(), " row(s) returned.\n")
        },
        QueryOutcome::ExecutionFailed(e) => text::cat2("Execution error: ", e.as_str()),
        QueryOutcome::PlanFailed(e) => text::cat2("Planning error: ", e.as_str()),
    }
}

/// Plans `VACUUM`.
pub fn handle_vacuum(current_db: &Option<String>) -> (r: EngineStep)
    ensures
        runs_in(r, *current_db),
{
    in_database(current_db)
}

/// What became of a `VACUUM`.
#[derive(Debug, PartialEq)]
pub enum VacuumOutcome {
    Done { pages_compacted: u64, dead_tuples: u64, indexes_rebuilt: u64 },
    Failed(String),
}

/// The lines that report a `VACUUM`.
pub open spec fn vacuum_report(db: Seq<char>, table: Seq<char>, o: VacuumOutcome) -> Seq<
    Seq<char>,
> {
    match o {
        VacuumOutcome::Failed(e) => seq!["VACUUM failed: "@ + e@],
        VacuumOutcome::Done { pages_compacted, dead_tuples, indexes_rebuilt } => {
            let done = "VACUUM '"@ + db + "."@ + table + "' complete: "@ + text::decimal(
                pages_compacted as nat,
            ) + " page(s) compacted, "@ + text::decimal(dead_tuples as nat)
                + " dead tuple(s) reclaimed, "@ + (text::decimal(indexes_rebuilt as nat)
                + " index(es) rebuilt."@);
            if pages_compacted == 0 {
                seq![done, "Table is already clean — nothing to do."@]
            } else {
                seq![done]
            }
        },
    }
}

pub fn vacuum_lines(db: &str, table: &str, o: &VacuumOutcome) -> (r: Vec<String>)
    ensures
        text::views(r@) == vacuum_report(db@, table@, *o),
{
    let mut out: Vec<String> = Vec::new();
    match o {
        VacuumOutcome::Failed(e) => {
            out.push(text::cat2("VACUUM failed: ", e.as_str()));
        },
        VacuumOutcome::Done { pages_compacted, dead_tuples, indexes_rebuilt } => {
            let pages = text::decimal_text(*pages_compacted as u128);
            let dead = text::decimal_text(*dead_tuples as u128);
            let indexes = text::decimal_text(*indexes_rebuilt as u128);
            let tail = text::cat2(indexes.as_str(), " index(es) rebuilt.");
            let head = text::cat9(
                "VACUUM '",
                db,
                ".",
                table,
                "' complete: ",
                pages.as_str(),
                " page(s) compacted, ",
                dead.as_str(),
                " dead tuple(s) reclaimed, ",
            );
            out.push(text::cat2(head.as_str(), tail.as_str()));
            if *pages_compacted == 0 {
                out.push("Table is already clean — nothing to do.".to_owned());
            }
        },
    }
    assert(text::views(out@) =~= vacuum_report(db@, table@, *o));
    out
}

#[derive(Debug, PartialEq)]
pub struct CreateIndexPlan {
    pub index_name: String,
    pub table_name: String,
    pub columns: Vec<String>,
}

/// Plans `CREATE INDEX`.
pub fn handle_create_index(current_db: &Option<String>) -> (r: EngineStep)
    ensures
        runs_in(r, *current_db),
{
    in_database(current_db)
}

/// The line that reports a `CREATE INDEX`: the number of entries, or the cause of the failure.
pub fn create_index_line(db: &str, params: &CreateIndexPlan, o: &Result<u64, String>) -> (r: String)
    ensures
        r@ == match *o {
            Ok(count) => "Created index '"@ + params.index_name@ + "' on "@ + db@ + "."@
                + params.table_name@ + "("@ + text::joined(text::views(params.columns@), ","@)
                + ") with "@ + (text::decimal(count as nat) + " entries."@),
            Err(e) => "Failed to create index: "@ + e@,
        },
{
    match o {
        Ok(count) => {
            let columns = text::join(&params.columns, ",");
            let n = text::decimal_text(*count as u128);
            let tail = text::cat2(n.as_str(), " entries.");
            let head = text::cat9(
                "Created index '",
                params.index_name.as_str(),
                "' on ",
                db,
                ".",
                params.table_name.as_str(),
                "(",
                columns.as_str(),
                ") with ",
            );
            text::cat2(head.as_str(), tail.as_str())
        },
        Err(e) => text::cat2("Failed to create index: ", e.as_str()),
    }
}

/// The answer to a statement of a kind that is not supported.
pub fn unsupported_line(message: &str) -> (r: String)
    ensures
        r@ == "Unsupported SQL statement: "@ + message@,
{
    text::cat2("Unsupported SQL statement: ", message)
}

/// The line for an error that a statement ended with.
pub fn error_line(message: &str) -> (r: String)
    ensures
        r@ == "Error: "@ + message@,
{
    text::cat2("Error: ", message)
}

/// A dropped database is gone from the catalog, and no other is touched.
pub proof fn law_drop_database_drops_it_alone(
    c: Map<Seq<char>, DatabaseView>,
    db: Seq<char>,
    if_exists: bool,
)
    requires
        c.contains_key(db),
    ensures
        effects::after(c, drop_database(c, db, if_exists, None)) == c.remove(db),
{
    let plan = drop_database(c, db, if_exists, None);
    let edit = seq![plan[0]];
    let rest = plan.skip(1);
    assert(plan =~= edit + rest);
    effects::lemma_after_concat(c, edit, rest);
    assert(edit.drop_last() =~= Seq::<EffectView>::empty());
    reveal_with_fuel(effects::after, 2);
    effects::lemma_after_no_edit(effects::after(c, edit), rest);
}

/// A database that is there is dropped with its directory and its entries, the catalog is saved, and
/// this is reported; of one that is not there, or whose name is at fault, nothing is touched.
pub proof fn law_drop_database_is_carried_out_or_reported(
    c: Map<Seq<char>, DatabaseView>,
    db: Seq<char>,
    if_exists: bool,
    fault: Seq<char>,
)
    ensures
        drop_database(c, db, if_exists, Some(fault)) == seq![EffectView::Warn { text: fault }],
        !c.contains_key(db) && if_exists ==> drop_database(c, db, if_exists, None) == seq![
            EffectView::Print {
                text: "Database '"@ + db + "' does not exist (IF EXISTS specified, skipping)."@,
            },
        ],
        !c.contains_key(db) && !if_exists ==> drop_database(c, db, if_exists, None) == seq![
            EffectView::Print { text: "Database '"@ + db + "' does not exist."@ },
        ],
        c.contains_key(db) ==> ({
            let plan = drop_database(c, db, if_exists, None);
            &&& plan.len() == 5
            &&& plan[0] == (EffectView::Edit { edit: EditView::DropDatabase { db } })
            &&& plan[1] == (EffectView::RemoveDir { path: "database/base/"@ + db })
            &&& plan[2] matches EffectView::DeleteDatabaseMetadata { db: d, .. }
            &&& d == db
            &&& plan[3] matches EffectView::SaveCatalog { warning: Some(_) }
            &&& plan[4] == (EffectView::Print {
                text: "Database '"@ + db + "' dropped successfully."@,
            })
        }),
{
}

/// A name of letters, digits, `_` and `-` is that of a directory; one that is empty or holds
/// anything else, a `/` or a `.` above all, is not.
pub proof fn law_directory_names_lead_nowhere_else(name: Seq<char>, i: int)
    ensures
        name.len() == 0 ==> !is_directory_name(name),
        0 <= i < name.len() && (name[i] == '/' || name[i] == '.' || name[i] == '\\' || name[i]
            == '\0' || text::is_space(name[i])) ==> !is_directory_name(name),
        name.len() > 0 && (forall|k: int|
            0 <= k < name.len() ==> {
                let c = #[trigger] name[k];
                'a' <= c <= 'z' || 'A' <= c <= 'Z' || '0' <= c <= '9' || c == '_' || c == '-'
            }) ==> is_directory_name(name),
{
    if is_directory_name(name) && 0 <= i < name.len() {
        assert(is_directory_char(name[i]));
    }
}

/// A vacuum is reported with its database, its table and its three counts, in this order; where no
/// page was compacted, one more line says so. One that failed is reported with the cause.
pub proof fn law_vacuum_is_reported(
    db: Seq<char>,
    table: Seq<char>,
    pages: u64,
    dead: u64,
    indexes: u64,
    e: String,
)
    ensures
        ({
            let report = vacuum_report(
                db,
                table,
                VacuumOutcome::Done {
                    pages_compacted: pages,
                    dead_tuples: dead,
                    indexes_rebuilt: indexes,
                },
            );
            &&& report.len() == (if pages == 0 {
                2nat
            } else {
                1nat
            })
            &&& report[0] == "VACUUM '"@ + db + "."@ + table + "' complete: "@ + text::decimal(
                pages as nat,
            ) + " page(s) compacted, "@ + text::decimal(dead as nat)
                + " dead tuple(s) reclaimed, "@ + text::decimal(indexes as nat)
                + " index(es) rebuilt."@
        }),
        vacuum_report(db, table, VacuumOutcome::Failed(e)) == seq!["VACUUM failed: "@ + e@],
{
    let lead = "VACUUM '"@ + db + "."@ + table + "' complete: "@ + text::decimal(pages as nat)
        + " page(s) compacted, "@ + text::decimal(dead as nat) + " dead tuple(s) reclaimed, "@;
    let n = text::decimal(indexes as nat);
    assert(lead + (n + " index(es) rebuilt."@) =~= lead + n + " index(es) rebuilt."@);
}

/// A statement runs in the selected database and in no other; where none is selected it is answered
/// and does not run.
pub proof fn law_statements_run_in_the_selected_database(r: EngineStep, db: String)
    ensures
        runs_in(r, Some(db)) ==> (r matches EngineStep::Run { db: d } && d@ == db@),
        runs_in(r, None) ==> (r matches EngineStep::Report(line) && line@
            == "No database selected. Use 'USE <database>' first."@),
        selected(Some(db)) == Some(db@),
        selected(None) is None,
{
}

/// The rows of a query are counted; a query that fails is reported by the step that it fails at,
/// with the cause.
pub proof fn law_queries_are_counted(o: QueryOutcome, line: String)
    requires
        call_ensures(query_line, (&o,), line),
    ensures
        o matches QueryOutcome::Rows(n) ==> line@ == text::decimal(n as nat)
            + " row(s) returned.\n"@,
        o matches QueryOutcome::ExecutionFailed(e) ==> line@ == "Execution error: "@ + e@,
        o matches QueryOutcome::PlanFailed(e) ==> line@ == "Planning error: "@ + e@,
{
}

/// A created index is reported with its name, its database, its table, all its columns in their
/// order and the number of its entries; one that could not be created, with the cause.
pub proof fn law_created_indexes_are_reported(
    db: &str,
    params: CreateIndexPlan,
    o: Result<u64, String>,
    line: String,
)
    requires
        call_ensures(create_index_line, (db, &params, &o), line),
    ensures
        o matches Ok(n) ==> line@ == "Created index '"@ + params.index_name@ + "' on "@ + db@ + "."@
            + params.table_name@ + "("@ + text::joined(text::views(params.columns@), ","@)
            + ") with "@ + text::decimal(n as nat) + " entries."@,
        o matches Err(e) ==> line@ == "Failed to create index: "@ + e@,
{
    if let Ok(n) = o {
        let lead = "Created index '"@ + params.index_name@ + "' on "@ + db@ + "."@
            + params.table_name@ + "("@ + text::joined(text::views(params.columns@), ","@)
            + ") with "@;
        let count = text::decimal(n as nat);
        assert(lead + (count + " entries."@) =~= lead + count + " entries."@);
    }
}

/// `CREATE DATABASE` creates the database that it names and reports it; `SHOW TABLES` lists those of
/// the selected database.
pub proof fn law_databases_are_created_and_shown(
    params: CreateDatabasePlan,
    current_db: Option<String>,
    created: Vec<Effect>,
    listed: Vec<Effect>,
    all: Vec<Effect>,
)
    requires
        call_ensures(handle_create_database, (&params,), created),
        call_ensures(handle_show_tables, (&current_db,), listed),
        call_ensures(handle_show_databases, (), all),
    ensures
        created@.len() == 2,
        created@[0]@ == (EffectView::CreateDatabase { db: params.database@ }),
        created@[1]@ == (EffectView::Print {
            text: "Database '"@ + params.database@ + "' created successfully."@,
        }),
        listed@.len() == 1,
        current_db matches Some(db) ==> listed@[0]@ == (EffectView::ShowTables { db: db@ }),
        current_db is None ==> listed@[0] is Print,
        all@.len() == 1 && all@[0] is ShowDatabases,
{
    let a = effects::shown(created@);
    assert(a.len() == created@.len());
    assert(a[0] == created@[0]@ && a[1] == created@[1]@);
    let b = effects::shown(listed@);
    assert(b.len() == listed@.len());
    assert(b[0] == listed@[0]@);
    let c = effects::shown(all@);
    assert(c.len() == all@.len());
    assert(c[0] == all@[0]@);
}

/// What is shown to the user of an error and of a statement that is not supported ends in the
/// message itself.
pub proof fn law_messages_are_shown(message: &str, error: String, unsupported: String)
    requires
        call_ensures(error_line, (message,), error),
        call_ensures(unsupported_line, (message,), unsupported),
    ensures
        error@ == "Error: "@ + message@,
        unsupported@ == "Unsupported SQL statement: "@ + message@,
{
}

/// Every statement that the engine carries out runs in the selected database alone, whatever its
/// kind.
pub proof fn law_engine_statements_run_alike(
    current_db: Option<String>,
    a: EngineStep,
    b: EngineStep,
    c: EngineStep,
    d: EngineStep,
)
    requires
        call_ensures(handle_select, (&current_db,), a),
        call_ensures(handle_set_operation, (&current_db,), b),
        call_ensures(handle_vacuum, (&current_db,), c),
        call_ensures(handle_create_index, (&current_db,), d),
    ensures
        current_db matches Some(db) ==> (a matches EngineStep::Run { db: x } && x@ == db@) && (
        b matches EngineStep::Run { db: x } && x@ == db@) && (c matches EngineStep::Run { db: x }
            && x@ == db@) && (d matches EngineStep::Run { db: x } && x@ == db@),
        current_db is None ==> a is Report && b is Report && c is Report && d is Report,
{
}

/// What fails while a database is dropped is warned about.
pub proof fn law_drop_database_warns(
    c: Map<Seq<char>, DatabaseView>,
    db: Seq<char>,
    if_exists: bool,
)
    requires
        c.contains_key(db),
    ensures
        drop_database(c, db, if_exists, None)[2] == (EffectView::DeleteDatabaseMetadata {
            db,
            warning: "[DropDatabase] Warning: failed to clean up system table metadata: "@,
        }),
        drop_database(c, db, if_exists, None)[3] == (EffectView::SaveCatalog {
            warning: Some("[DropDatabase] Warning: failed to save catalog: "@),
        }),
{
}

} // verus!
