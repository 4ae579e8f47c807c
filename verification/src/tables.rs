//! `DROP TABLE`, `TRUNCATE`, `CREATE VIEW` and `DROP VIEW`.

use vstd::prelude::*;
use crate::ast::SelectPlan;
use crate::catalog;
use crate::catalog::{Catalog, CatalogEdit, Database, DatabaseView, EditView, ViewDef, ViewView};
use crate::effects;
use crate::effects::{Effect, EffectView};
use crate::errors;
use crate::errors::{DbError, ErrorKind, ErrorView};
use crate::files;
use crate::references;
use crate::references::select_plan_references_table;
use crate::text;

verus! {

pub open spec fn no_database(db: Seq<char>) -> ErrorView {
    errors::error(ErrorKind::NotFound, "Database '"@ + db + "' not found"@)
}

pub open spec fn no_table_in(db: Seq<char>, table: Seq<char>) -> ErrorView {
    errors::error(
        ErrorKind::NotFound,
        "Table '"@ + table + "' not found in database '"@ + db + "'"@,
    )
}

/// A view depends on a table where its query could be decoded and reads the table.
pub open spec fn view_depends(v: ViewView, table: Seq<char>) -> bool {
    v.query is Some && references::plan_refs(v.query->0, table)
}

/// `views` lists the views of `db` that depend on `table`, each once.
pub open spec fn dependents(
    c: Map<Seq<char>, DatabaseView>,
    db: Seq<char>,
    table: Seq<char>,
    views: Seq<Seq<char>>,
) -> bool {
    &&& views.no_duplicates()
    &&& forall|k: Seq<char>| #[trigger]
        views.contains(k) <==> catalog::has_view(c, db, k) && view_depends(c[db].views[k], table)
}

/// The effects that drop the dependent views.
pub open spec fn cascade(db: Seq<char>, views: Seq<Seq<char>>) -> Seq<EffectView>
    decreases views.len(),
{
    if views.len() == 0 {
        Seq::empty()
    } else {
        cascade(db, views.drop_last()) + seq![
            EffectView::Edit { edit: EditView::DropView { db, name: views.last() } },
            EffectView::Print { text: "Cascaded drop of view '"@ + views.last() + "'."@ },
        ]
    }
}

/// The effects that drop the table itself.
pub open spec fn drop_files(db: Seq<char>, table: Seq<char>) -> Seq<EffectView> {
    let heap = files::heap_file(db, table);
    seq![
        EffectView::Edit { edit: EditView::DropTable { db, name: table } },
        EffectView::RemoveFile { path: heap },
        EffectView::RemoveFile { path: files::fsm_file(heap) },
        EffectView::RemoveIndexFiles { db, table },
        EffectView::DeleteTableMetadata {
            db,
            table,
            warning: "[DropTable] Warning: failed to clean up system table metadata for '"@ + db
                + "."@ + table + "': "@,
        },
        EffectView::SaveCatalog {
            warning: Some(
                "[DropTable] Warning: failed to save catalog after dropping table '"@ + db + "."@
                    + table + "': "@,
            ),
        },
        EffectView::Print {
            text: "Dropped table '"@ + table + "' from database '"@ + db + "'."@,
        },
    ]
}

/// What `DROP TABLE` does, given the dependent views and the tables with a foreign key to the
/// table, or why those could not be found out.
pub open spec fn drop_table(
    c: Map<Seq<char>, DatabaseView>,
    db: Seq<char>,
    table: Seq<char>,
    if_exists: bool,
    cascades: bool,
    views: Seq<Seq<char>>,
    foreign_keys: Result<Seq<Seq<char>>, Seq<char>>,
) -> Result<Seq<EffectView>, ErrorView> {
    if !c.contains_key(db) {
        Err(no_database(db))
    } else if !c[db].tables.contains_key(table) {
        if if_exists {
            Ok(
                seq![
                    EffectView::Print {
                        text: "Table '"@ + table
                            + "' does not exist (IF EXISTS specified, skipping)."@,
                    },
                ],
            )
        } else {
            Err(no_table_in(db, table))
        }
    } else if views.len() > 0 && !cascades {
        Err(
            errors::error(
                ErrorKind::PermissionDenied,
                "Cannot drop table '"@ + table + "' because it is referenced by views: "@
                    + text::joined(views, ", "@),
            ),
        )
    } else {
        match foreign_keys {
            Err(e) => Err(
                errors::error(
                    ErrorKind::Other,
                    "Failed to check referencing foreign keys: "@ + e,
                ),
            ),
            Ok(children) => if children.len() > 0 && !cascades {
                Err(
                    errors::error(
                        ErrorKind::PermissionDenied,
                        "Cannot drop table '"@ + table
                            + "' because it is referenced by foreign keys in: "@ + text::joined(
                            children,
                            ", "@,
                        ),
                    ),
                )
            } else {
                Ok(
                    cascade(db, views) + (if children.len() > 0 {
                        seq![EffectView::DeleteReferencingForeignKeys { db, table }]
                    } else {
                        Seq::<EffectView>::empty()
                    }) + drop_files(db, table),
                )
            },
        }
    }
}

/// The view of the foreign keys found.
pub open spec fn keys_view(k: Result<Vec<String>, String>) -> Result<Seq<Seq<char>>, Seq<char>> {
    match k {
        Ok(children) => Ok(text::views(children@)),
        Err(e) => Err(e@),
    }
}

/// Whether a view depends on a table.
fn depends(view: &ViewDef, table: &str) -> (r: bool)
    ensures
        r == view_depends(view@, table@),
{
    match &view.query {
        Some(plan) => select_plan_references_table(plan, table),
        None => false,
    }
}

/// The views of a database that depend on a table.
pub fn referencing_views(d: &Database, table: &str) -> (r: Vec<String>)
    ensures
        text::views(r@).no_duplicates(),
        forall|k: Seq<char>| #[trigger]
            text::views(r@).contains(k) <==> d@.views.contains_key(k) && view_depends(
                d@.views[k],
                table@,
            ),
{
    let n: usize = d.views.len();
    let mut r: Vec<String> = Vec::new();
    let mut i: usize = 0;
    let ghost names = d.views.names();
    while i < n
        invariant
            i <= n,
            n == names.len(),
            names == d.views.names(),
            names.no_duplicates(),
            forall|k: Seq<char>| names.contains(k) <==> d.views@.contains_key(k),
            text::views(r@).no_duplicates(),
            forall|k: Seq<char>| #[trigger]
                text::views(r@).contains(k) <==> names.take(i as int).contains(k) && view_depends(
                    d.views@[k],
                    table@,
                ),
        decreases n - i,
    {
        let ghost done = text::views(r@);
        let ghost name = names[i as int];
        assert(names.contains(name));
        let ghost some = names.take(i as int);
        let ghost more = names.take(i + 1);
        assert forall|k: Seq<char>| #[trigger]
            more.contains(k) <==> some.contains(k) || k == name by {
            if more.contains(k) && k != name {
                let j = choose|j: int| 0 <= j < more.len() && more[j] == k;
                assert(some[j] == k);
            }
            if some.contains(k) {
                let j = choose|j: int| 0 <= j < some.len() && some[j] == k;
                assert(more[j] == k);
            }
            assert(more[i as int] == name);
        }
        assert(!some.contains(name));
        if depends(d.views.value_at(i), table) {
            r.push(d.views.name_at(i).clone());
            assert(text::views(r@) =~= done.push(name));
            assert forall|k: Seq<char>| #[trigger]
                text::views(r@).contains(k) <==> done.contains(k) || k == name by {
                if done.contains(k) {
                    let j = choose|j: int| 0 <= j < done.len() && done[j] == k;
                    assert(text::views(r@)[j] == k);
                }
                if k == name {
                    assert(text::views(r@)[done.len() as int] == k);
                }
            }
            assert(!done.contains(name));
            assert(text::views(r@).no_duplicates());
        }
        i = i + 1;
    }
    assert(names.take(i as int) =~= names);
    r
}

/// Plans `DROP TABLE`.
///
/// A table that views or foreign keys refer to is dropped only with `cascade`, and the views and
/// the keys go with it.
pub fn execute_drop_table(
    catalog: &Catalog,
    db: &str,
    table: &str,
    if_exists: bool,
    cascade: bool,
    foreign_keys: &Result<Vec<String>, String>,
) -> (r: Result<Vec<Effect>, DbError>)
    ensures
        exists|views: Seq<Seq<char>>| #[trigger]
            dependents(catalog@, db@, table@, views) && effects::outcome(r) == drop_table(
                catalog@,
                db@,
                table@,
                if_exists,
                cascade,
                views,
                keys_view(*foreign_keys),
            ),
{
    let d = match catalog.databases.get(db) {
        Some(d) => d,
        None => {
            let message = text::cat3("Database '", db, "' not found");
            assert(dependents(catalog@, db@, table@, Seq::empty()));
            return Err(DbError { kind: ErrorKind::NotFound, message });
        },
    };
    let views = referencing_views(d, table);
    assert(dependents(catalog@, db@, table@, text::views(views@)));
    let mut out: Vec<Effect> = Vec::new();
    if !d.tables.contains_key(table) {
        if if_exists {
            out.push(
                Effect::Print {
                    text: text::cat3(
                        "Table '",
                        table,
                        "' does not exist (IF EXISTS specified, skipping).",
                    ),
                },
            );
            assert(effects::shown(out@) =~= drop_table(
                catalog@,
                db@,
                table@,
                if_exists,
                cascade,
                text::views(views@),
                keys_view(*foreign_keys),
            )->Ok_0);
            return Ok(out);
        }
        let message = text::cat5("Table '", table, "' not found in database '", db, "'");
        return Err(DbError { kind: ErrorKind::NotFound, message });
    }
    if views.len() > 0 && !cascade {
        let list = text::join(&views, ", ");
        let message = text::cat4(
            "Cannot drop table '",
            table,
            "' because it is referenced by views: ",
            list.as_str(),
        );
        return Err(DbError { kind: ErrorKind::PermissionDenied, message });
    }
    let children = match foreign_keys {
        Ok(children) => children,
        Err(e) => {
            let message = text::cat2("Failed to check referencing foreign keys: ", e.as_str());
            return Err(DbError { kind: ErrorKind::Other, message });
        },
    };
    if children.len() > 0 && !cascade {
        let list = text::join(children, ", ");
        let message = text::cat4(
            "Cannot drop table '",
            table,
            "' because it is referenced by foreign keys in: ",
            list.as_str(),
        );
        return Err(DbError { kind: ErrorKind::PermissionDenied, message });
    }
    push_cascade(&mut out, db, &views);
    if children.len() > 0 {
        out.push(Effect::DeleteReferencingForeignKeys { db: db.to_owned(), table: table.to_owned() });
    }
    push_drop_files(&mut out, db, table);
    assert(effects::shown(out@) =~= drop_table(
        catalog@,
        db@,
        table@,
        if_exists,
        cascade,
        text::views(views@),
        keys_view(*foreign_keys),
    )->Ok_0);
    Ok(out)
}

fn push_cascade(out: &mut Vec<Effect>, db: &str, views: &Vec<String>)
    requires
        old(out)@.len() == 0,
    ensures
        effects::shown(final(out)@) == cascade(db@, text::views(views@)),
{
    let ghost all = text::views(views@);
    let mut i: usize = 0;
    assert(effects::shown(out@) =~= cascade(db@, all.take(0)));
    while i < views.len()
        invariant
            i <= views.len(),
            all == text::views(views@),
            effects::shown(out@) == cascade(db@, all.take(i as int)),
        decreases views.len() - i,
    {
        let ghost done = effects::shown(out@);
        let name = views[i].as_str();
        out.push(
            Effect::Edit {
                edit: CatalogEdit::DropView { db: db.to_owned(), name: name.to_owned() },
            },
        );
        out.push(Effect::Print { text: text::cat3("Cascaded drop of view '", name, "'.") });
        assert(all.take(i + 1).drop_last() =~= all.take(i as int));
        assert(all.take(i + 1).last() == name@);
        assert(effects::shown(out@) =~= done + seq![
            EffectView::Edit { edit: EditView::DropView { db: db@, name: name@ } },
            EffectView::Print { text: "Cascaded drop of view '"@ + name@ + "'."@ },
        ]);
        i = i + 1;
    }
    assert(all.take(i as int) =~= all);
}

fn push_drop_files(out: &mut Vec<Effect>, db: &str, table: &str)
    ensures
        effects::shown(final(out)@) == effects::shown(old(out)@) + drop_files(db@, table@),
{
    let heap = files::heap_path(db, table);
    let fsm = files::fsm_path(heap.as_str());
    out.push(
        Effect::Edit { edit: CatalogEdit::DropTable { db: db.to_owned(), name: table.to_owned() } },
    );
    out.push(Effect::RemoveFile { path: heap });
    out.push(Effect::RemoveFile { path: fsm });
    out.push(Effect::RemoveIndexFiles { db: db.to_owned(), table: table.to_owned() });
    out.push(
        Effect::DeleteTableMetadata {
            db: db.to_owned(),
            table: table.to_owned(),
            warning: text::cat5(
                "[DropTable] Warning: failed to clean up system table metadata for '",
                db,
                ".",
                table,
                "': ",
            ),
        },
    );
    out.push(
        Effect::SaveCatalog {
            warning: Some(
                text::cat5(
                    "[DropTable] Warning: failed to save catalog after dropping table '",
                    db,
                    ".",
                    table,
                    "': ",
                ),
            ),
        },
    );
    out.push(
        Effect::Print { text: text::cat5("Dropped table '", table, "' from database '", db, "'.") },
    );
    assert(effects::shown(out@) =~= effects::shown(old(out)@) + drop_files(db@, table@));
}

/// The line that reports the foreign keys that went with a table.
pub fn cascaded_keys_line(count: usize) -> (r: String)
    ensures
        r@ == "Cascaded drop of "@ + text::decimal(count as nat)
            + " referencing foreign key constraints."@,
{
    let n = text::decimal_text(count as u128);
    text::cat3("Cascaded drop of ", n.as_str(), " referencing foreign key constraints.")
}

/// What `TRUNCATE` does: the heap file is made anew, and the indexes go.
pub open spec fn truncate(
    c: Map<Seq<char>, DatabaseView>,
    db: Seq<char>,
    table: Seq<char>,
) -> Result<Seq<EffectView>, ErrorView> {
    let heap = files::heap_file(db, table);
    if !c.contains_key(db) {
        Err(no_database(db))
    } else if !c[db].tables.contains_key(table) {
        Err(no_table_in(db, table))
    } else {
        Ok(
            seq![
                EffectView::RemoveFileIfPresent {
                    path: heap,
                    context: "Failed to remove table file: "@,
                },
                EffectView::RemoveFile { path: files::fsm_file(heap) },
                EffectView::CreateHeap {
                    path: heap,
                    create_context: "Failed to create table file: "@,
                    flush_context: "Failed to flush table file: "@,
                },
                EffectView::RemoveIndexFiles { db, table },
                EffectView::Print { text: "Truncated table '"@ + table + "' (0 rows)."@ },
            ],
        )
    }
}

/// Plans `TRUNCATE`.
pub fn execute_truncate(catalog: &Catalog, db: &str, table: &str) -> (r: Result<
    Vec<Effect>,
    DbError,
>)
    ensures
        effects::outcome(r) == truncate(catalog@, db@, table@),
{
    if !catalog.databases.contains_key(db) {
        let message = text::cat3("Database '", db, "' not found");
        return Err(DbError { kind: ErrorKind::NotFound, message });
    }
    if catalog.table(db, table).is_none() {
        let message = text::cat5("Table '", table, "' not found in database '", db, "'");
        return Err(DbError { kind: ErrorKind::NotFound, message });
    }
    let heap = files::heap_path(db, table);
    let fsm = files::fsm_path(heap.as_str());
    let mut out: Vec<Effect> = Vec::new();
    out.push(
        Effect::RemoveFileIfPresent {
            path: heap.clone(),
            context: "Failed to remove table file: ".to_owned(),
        },
    );
    out.push(Effect::RemoveFile { path: fsm });
    out.push(
        Effect::CreateHeap {
            path: heap,
            create_context: "Failed to create table file: ".to_owned(),
            flush_context: "Failed to flush table file: ".to_owned(),
        },
    );
    out.push(Effect::RemoveIndexFiles { db: db.to_owned(), table: table.to_owned() });
    out.push(Effect::Print { text: text::cat3("Truncated table '", table, "' (0 rows).") });
    assert(effects::shown(out@) =~= truncate(catalog@, db@, table@)->Ok_0);
    Ok(out)
}

/// What `CREATE VIEW` does with a query and its stored form, or with the reason why there is no
/// stored form.
pub open spec fn create_view(
    c: Map<Seq<char>, DatabaseView>,
    db: Seq<char>,
    name: Seq<char>,
    or_replace: bool,
    query: SelectPlan,
    query_json: Result<Seq<char>, Seq<char>>,
) -> Result<Seq<EffectView>, ErrorView> {
    if !c.contains_key(db) {
        Err(no_database(db))
    } else {
        match query_json {
            Err(e) => Err(errors::error(ErrorKind::InvalidData, e)),
            Ok(json) => if c[db].tables.contains_key(name) {
                Err(
                    errors::error(
                        ErrorKind::AlreadyExists,
                        "A table named '"@ + name + "' already exists"@,
                    ),
                )
            } else if c[db].views.contains_key(name) && !or_replace {
                Err(
                    errors::error(
                        ErrorKind::AlreadyExists,
                        "View '"@ + name + "' already exists (use OR REPLACE to modify)"@,
                    ),
                )
            } else {
                Ok(
                    seq![
                        EffectView::Edit {
                            edit: EditView::PutView {
                                db,
                                name,
                                view: ViewView { query_json: json, query: Some(query) },
                            },
                        },
                        EffectView::SaveCatalog { warning: None },
                        EffectView::Print { text: "View '"@ + name + "' created successfully."@ },
                    ],
                )
            },
        }
    }
}

/// A view to create.
#[derive(Debug, PartialEq)]
pub struct CreateViewPlan {
    pub name: String,
    pub or_replace: bool,
    pub query: SelectPlan,
}

/// Plans `CREATE VIEW`.
pub fn execute_create_view(
    catalog: &Catalog,
    db: &str,
    view: CreateViewPlan,
    query_json: Result<String, String>,
) -> (r: Result<Vec<Effect>, DbError>)
    ensures
        effects::outcome(r) == create_view(
            catalog@,
            db@,
            view.name@,
            view.or_replace,
            view.query,
            match query_json {
                Ok(json) => Ok::<Seq<char>, Seq<char>>(json@),
                Err(e) => Err(e@),
            },
        ),
{
    let d = match catalog.databases.get(db) {
        Some(d) => d,
        None => {
            let message = text::cat3("Database '", db, "' not found");
            return Err(DbError { kind: ErrorKind::NotFound, message });
        },
    };
    let json = match query_json {
        Ok(json) => json,
        Err(message) => {
            return Err(DbError { kind: ErrorKind::InvalidData, message });
        },
    };
    if d.tables.contains_key(view.name.as_str()) {
        let message = text::cat3("A table named '", view.name.as_str(), "' already exists");
        return Err(DbError { kind: ErrorKind::AlreadyExists, message });
    }
    if d.views.contains_key(view.name.as_str()) && !view.or_replace {
        let message = text::cat3(
            "View '",
            view.name.as_str(),
            "' already exists (use OR REPLACE to modify)",
        );
        return Err(DbError { kind: ErrorKind::AlreadyExists, message });
    }
    let line = text::cat3("View '", view.name.as_str(), "' created successfully.");
    let mut out: Vec<Effect> = Vec::new();
    let ghost name = view.name@;
    let ghost query = view.query;
    let ghost stored = json@;
    out.push(
        Effect::Edit {
            edit: CatalogEdit::PutView {
                db: db.to_owned(),
                name: view.name,
                view: ViewDef { query_json: json, query: Some(view.query) },
            },
        },
    );
    out.push(Effect::SaveCatalog { warning: None });
    out.push(Effect::Print { text: line });
    assert(effects::shown(out@) =~= seq![
        EffectView::Edit {
            edit: EditView::PutView {
                db: db@,
                name,
                view: ViewView { query_json: stored, query: Some(query) },
            },
        },
        EffectView::SaveCatalog { warning: None },
        EffectView::Print { text: "View '"@ + name + "' created successfully."@ },
    ]);
    Ok(out)
}

/// What `DROP VIEW` does.
pub open spec fn drop_view(
    c: Map<Seq<char>, DatabaseView>,
    db: Seq<char>,
    name: Seq<char>,
    if_exists: bool,
) -> Result<Seq<EffectView>, ErrorView> {
    if !c.contains_key(db) {
        Err(no_database(db))
    } else if !c[db].views.contains_key(name) {
        if if_exists {
            Ok(
                seq![
                    EffectView::Print {
                        text: "View '"@ + name
                            + "' does not exist (IF EXISTS specified, skipping)."@,
                    },
                ],
            )
        } else {
            Err(
                errors::error(
                    ErrorKind::NotFound,
                    "View '"@ + name + "' not found in database '"@ + db + "'"@,
                ),
            )
        }
    } else {
        Ok(
            seq![
                EffectView::Edit { edit: EditView::DropView { db, name } },
                EffectView::SaveCatalog { warning: None },
                EffectView::Print { text: "View '"@ + name + "' dropped."@ },
            ],
        )
    }
}

/// Plans `DROP VIEW`.
pub fn execute_drop_view(catalog: &Catalog, db: &str, view_name: &str, if_exists: bool) -> (r:
    Result<Vec<Effect>, DbError>)
    ensures
        effects::outcome(r) == drop_view(catalog@, db@, view_name@, if_exists),
{
    let d = match catalog.databases.get(db) {
        Some(d) => d,
        None => {
            let message = text::cat3("Database '", db, "' not found");
            return Err(DbError { kind: ErrorKind::NotFound, message });
        },
    };
    let mut out: Vec<Effect> = Vec::new();
    if !d.views.contains_key(view_name) {
        if !if_exists {
            let message = text::cat5("View '", view_name, "' not found in database '", db, "'");
            return Err(DbError { kind: ErrorKind::NotFound, message });
        }
        out.push(
            Effect::Print {
                text: text::cat3(
                    "View '",
                    view_name,
                    "' does not exist (IF EXISTS specified, skipping).",
                ),
            },
        );
    } else {
        out.push(
            Effect::Edit {
                edit: CatalogEdit::DropView { db: db.to_owned(), name: view_name.to_owned() },
            },
        );
        out.push(Effect::SaveCatalog { warning: None });
        out.push(Effect::Print { text: text::cat3("View '", view_name, "' dropped.") });
    }
    assert(effects::shown(out@) =~= drop_view(catalog@, db@, view_name@, if_exists)->Ok_0);
    Ok(out)
}

/// The catalog without some views of a database.
pub open spec fn without_views(
    c: Map<Seq<char>, DatabaseView>,
    db: Seq<char>,
    views: Seq<Seq<char>>,
) -> Map<Seq<char>, DatabaseView> {
    if c.contains_key(db) {
        c.insert(
            db,
            DatabaseView {
                views: c[db].views.remove_keys(Set::new(|k: Seq<char>| views.contains(k))),
                ..c[db]
            },
        )
    } else {
        c
    }
}

proof fn lemma_cascade_edits(c: Map<Seq<char>, DatabaseView>, db: Seq<char>, views: Seq<Seq<char>>)
    requires
        c.contains_key(db),
    ensures
        effects::after(c, cascade(db, views)) == without_views(c, db, views),
    decreases views.len(),
{
    if views.len() == 0 {
        assert(c[db].views.remove_keys(Set::new(|k: Seq<char>| views.contains(k)))
            =~= c[db].views);
        assert(without_views(c, db, views) =~= c);
    } else {
        let init = views.drop_last();
        let last = views.last();
        lemma_cascade_edits(c, db, init);
        let before = effects::after(c, cascade(db, init));
        let two = seq![
            EffectView::Edit { edit: EditView::DropView { db, name: last } },
            EffectView::Print { text: "Cascaded drop of view '"@ + last + "'."@ },
        ];
        effects::lemma_after_concat(c, cascade(db, init), two);
        assert(two.drop_last() =~= seq![
            EffectView::Edit { edit: EditView::DropView { db, name: last } },
        ]);
        assert(two.drop_last().drop_last() =~= Seq::<EffectView>::empty());
        reveal_with_fuel(effects::after, 3);
        assert(effects::after(before, two) == catalog::edited(
            before,
            EditView::DropView { db, name: last },
        ));
        assert forall|k: Seq<char>| views.contains(k) <==> init.contains(k) || k == last by {
            if init.contains(k) {
                let j = choose|j: int| 0 <= j < init.len() && init[j] == k;
                assert(views[j] == k);
            }
            if k == last {
                assert(views[views.len() - 1] == k);
            }
            if views.contains(k) && k != last {
                let j = choose|j: int| 0 <= j < views.len() && views[j] == k;
                assert(init[j] == k);
            }
        }
        assert(before[db].views.remove(last) =~= c[db].views.remove_keys(
            Set::new(|k: Seq<char>| views.contains(k)),
        ));
        assert(effects::after(before, two) =~= without_views(c, db, views));
    }
}

/// A dropped table is gone, and with it exactly the views that depend on it; every other table,
/// view and database is as before.
pub proof fn law_drop_table_drops_the_table_and_its_views(
    c: Map<Seq<char>, DatabaseView>,
    db: Seq<char>,
    table: Seq<char>,
    if_exists: bool,
    cascades: bool,
    views: Seq<Seq<char>>,
    foreign_keys: Result<Seq<Seq<char>>, Seq<char>>,
)
    requires
        catalog::has_table(c, db, table),
        dependents(c, db, table, views),
        drop_table(c, db, table, if_exists, cascades, views, foreign_keys) is Ok,
    ensures
        ({
            let end = effects::after(
                c,
                drop_table(c, db, table, if_exists, cascades, views, foreign_keys)->Ok_0,
            );
            &&& end.dom() == c.dom()
            &&& end[db].tables == c[db].tables.remove(table)
            &&& forall|k: Seq<char>| #[trigger]
                end[db].views.contains_key(k) <==> c[db].views.contains_key(k) && !view_depends(
                    c[db].views[k],
                    table,
                )
            &&& forall|k: Seq<char>|
                end[db].views.contains_key(k) ==> #[trigger] end[db].views[k] == c[db].views[k]
            &&& forall|other: Seq<char>|
                other != db && c.contains_key(other) ==> #[trigger] end[other] == c[other]
        }),
{
    let plan = drop_table(c, db, table, if_exists, cascades, views, foreign_keys)->Ok_0;
    let first = cascade(db, views);
    let children = foreign_keys->Ok_0;
    let keys = if children.len() > 0 {
        seq![EffectView::DeleteReferencingForeignKeys { db, table }]
    } else {
        Seq::<EffectView>::empty()
    };
    let last = drop_files(db, table);
    assert(plan == first + keys + last);
    lemma_cascade_edits(c, db, views);
    effects::lemma_after_concat(c, first + keys, last);
    effects::lemma_after_concat(c, first, keys);
    let mid = effects::after(c, first);
    effects::lemma_after_no_edit(mid, keys);
    let edit = seq![last[0]];
    let rest = last.skip(1);
    assert(last =~= edit + rest);
    effects::lemma_after_concat(mid, edit, rest);
    assert(edit.drop_last() =~= Seq::<EffectView>::empty());
    reveal_with_fuel(effects::after, 2);
    let end = catalog::edited(mid, EditView::DropTable { db, name: table });
    assert(effects::after(mid, edit) == end);
    effects::lemma_after_no_edit(end, rest);
    assert(effects::after(c, plan) == end);
    assert(end.dom() =~= c.dom());
    assert forall|k: Seq<char>| #[trigger]
        end[db].views.contains_key(k) <==> c[db].views.contains_key(k) && !view_depends(
            c[db].views[k],
            table,
        ) by {
        assert(views.contains(k) <==> catalog::has_view(c, db, k) && view_depends(
            c[db].views[k],
            table,
        ));
    }
}

/// A table that a view or a foreign key refers to is not dropped without `CASCADE`.
pub proof fn law_referenced_table_needs_cascade(
    c: Map<Seq<char>, DatabaseView>,
    db: Seq<char>,
    table: Seq<char>,
    if_exists: bool,
    views: Seq<Seq<char>>,
    children: Seq<Seq<char>>,
)
    requires
        catalog::has_table(c, db, table),
        views.len() > 0 || children.len() > 0,
    ensures
        drop_table(c, db, table, if_exists, false, views, Ok(children)) is Err,
        drop_table(c, db, table, if_exists, false, views, Ok(children))->Err_0.kind
            == ErrorKind::PermissionDenied,
{
}

/// `TRUNCATE` leaves the catalog as it is.
pub proof fn law_truncate_keeps_the_catalog(
    c: Map<Seq<char>, DatabaseView>,
    db: Seq<char>,
    table: Seq<char>,
)
    requires
        truncate(c, db, table) is Ok,
    ensures
        effects::after(c, truncate(c, db, table)->Ok_0) == c,
{
    effects::lemma_after_no_edit(c, truncate(c, db, table)->Ok_0);
}

proof fn lemma_one_edit(c: Map<Seq<char>, DatabaseView>, plan: Seq<EffectView>)
    requires
        plan.len() == 3,
        plan[0] is Edit,
        !(plan[1] is Edit),
        !(plan[2] is Edit),
    ensures
        effects::after(c, plan) == catalog::edited(c, plan[0]->edit),
{
    assert(plan.drop_last().drop_last().drop_last() =~= Seq::<EffectView>::empty());
    assert(plan.drop_last().drop_last().last() == plan[0]);
    reveal_with_fuel(effects::after, 4);
}

/// A created view is in the catalog, and dropping it gives the catalog back as it was.
pub proof fn law_drop_view_undoes_create_view(
    c: Map<Seq<char>, DatabaseView>,
    db: Seq<char>,
    name: Seq<char>,
    or_replace: bool,
    query: SelectPlan,
    json: Seq<char>,
    if_exists: bool,
)
    requires
        create_view(c, db, name, or_replace, query, Ok(json)) is Ok,
    ensures
        ({
            let with_view = effects::after(
                c,
                create_view(c, db, name, or_replace, query, Ok(json))->Ok_0,
            );
            &&& catalog::has_view(with_view, db, name)
            &&& with_view[db].views[name] == (ViewView { query_json: json, query: Some(query) })
            &&& drop_view(with_view, db, name, if_exists) is Ok
            &&& !catalog::has_view(c, db, name) ==> effects::after(
                with_view,
                drop_view(with_view, db, name, if_exists)->Ok_0,
            ) == c
        }),
{
    let plan = create_view(c, db, name, or_replace, query, Ok(json))->Ok_0;
    lemma_one_edit(c, plan);
    let with_view = effects::after(c, plan);
    let back = drop_view(with_view, db, name, if_exists)->Ok_0;
    lemma_one_edit(with_view, back);
    if !catalog::has_view(c, db, name) {
        assert(c[db].views.insert(name, ViewView { query_json: json, query: Some(query) }).remove(
            name,
        ) =~= c[db].views);
        assert(effects::after(with_view, back) =~= c);
    }
}

/// A view cannot take the name of a table, not even with `OR REPLACE`.
pub proof fn law_view_never_hides_a_table(
    c: Map<Seq<char>, DatabaseView>,
    db: Seq<char>,
    name: Seq<char>,
    or_replace: bool,
    query: SelectPlan,
    json: Seq<char>,
)
    requires
        catalog::has_table(c, db, name),
    ensures
        create_view(c, db, name, or_replace, query, Ok(json)) is Err,
{
}

/// With `IF EXISTS`, dropping a table or a view that is not there is no error and changes
/// nothing.
pub proof fn law_if_exists_skips(
    c: Map<Seq<char>, DatabaseView>,
    db: Seq<char>,
    name: Seq<char>,
    cascades: bool,
    views: Seq<Seq<char>>,
    foreign_keys: Result<Seq<Seq<char>>, Seq<char>>,
)
    requires
        c.contains_key(db),
    ensures
        !c[db].tables.contains_key(name) ==> {
            let plan = drop_table(c, db, name, true, cascades, views, foreign_keys);
            plan is Ok && effects::after(c, plan->Ok_0) == c
        },
        !c[db].views.contains_key(name) ==> {
            let plan = drop_view(c, db, name, true);
            plan is Ok && effects::after(c, plan->Ok_0) == c
        },
{
    if !c[db].tables.contains_key(name) {
        effects::lemma_after_no_edit(
            c,
            drop_table(c, db, name, true, cascades, views, foreign_keys)->Ok_0,
        );
    }
    if !c[db].views.contains_key(name) {
        effects::lemma_after_no_edit(c, drop_view(c, db, name, true)->Ok_0);
    }
}

/// The query names `table` in its `FROM` list or in one of its joins, at place `i`, in whatever
/// letter case.
pub open spec fn reads_at(query: SelectPlan, table: Seq<char>, i: int) -> bool {
    ||| 0 <= i < query.from@.len() && text::ascii_lower(query.from@[i].name@) == text::ascii_lower(
        table,
    )
    ||| 0 <= i < query.joins@.len() && text::ascii_lower(query.joins@[i].relation.name@)
        == text::ascii_lower(table)
}

/// A table that the query of a view reads, in its `FROM` list or in any of its joins, is not
/// dropped without `CASCADE`, and the refusal names the views; with `CASCADE` the view goes with
/// the table.
pub proof fn law_table_of_a_view_needs_cascade(
    c: Map<Seq<char>, DatabaseView>,
    db: Seq<char>,
    table: Seq<char>,
    if_exists: bool,
    views: Seq<Seq<char>>,
    foreign_keys: Result<Seq<Seq<char>>, Seq<char>>,
    view: Seq<char>,
    query: SelectPlan,
    i: int,
)
    requires
        c.contains_key(db),
        c[db].tables.contains_key(table),
        c[db].views.contains_key(view),
        c[db].views[view].query == Some(query),
        reads_at(query, table, i),
        dependents(c, db, table, views),
    ensures
        views.contains(view),
        ({
            let plan = drop_table(c, db, table, if_exists, false, views, foreign_keys);
            &&& plan is Err
            &&& plan->Err_0.kind == ErrorKind::PermissionDenied
            &&& plan->Err_0.message == "Cannot drop table '"@ + table
                + "' because it is referenced by views: "@ + text::joined(views, ", "@)
        }),
        foreign_keys is Ok ==> {
            let plan = drop_table(c, db, table, if_exists, true, views, foreign_keys);
            let end = effects::after(c, plan->Ok_0);
            &&& plan is Ok
            &&& !end[db].tables.contains_key(table)
            &&& !end[db].views.contains_key(view)
        },
{
    references::law_relations_are_depended_on(query, table, i);
    assert(view_depends(c[db].views[view], table));
    assert(views.contains(view));
    assert(views.len() > 0);
    if foreign_keys is Ok {
        law_drop_table_drops_the_table_and_its_views(
            c,
            db,
            table,
            if_exists,
            true,
            views,
            foreign_keys,
        );
    }
}

/// A table that foreign keys refer to is not dropped without `CASCADE`, and the refusal names
/// the tables that hold them; with `CASCADE` those keys are deleted.
pub proof fn law_table_of_a_foreign_key_needs_cascade(
    c: Map<Seq<char>, DatabaseView>,
    db: Seq<char>,
    table: Seq<char>,
    if_exists: bool,
    views: Seq<Seq<char>>,
    children: Seq<Seq<char>>,
)
    requires
        c.contains_key(db),
        c[db].tables.contains_key(table),
        children.len() > 0,
    ensures
        views.len() == 0 ==> {
            let plan = drop_table(c, db, table, if_exists, false, views, Ok(children));
            &&& plan is Err
            &&& plan->Err_0.kind == ErrorKind::PermissionDenied
            &&& plan->Err_0.message == "Cannot drop table '"@ + table
                + "' because it is referenced by foreign keys in: "@ + text::joined(
                children,
                ", "@,
            )
        },
        ({
            let plan = drop_table(c, db, table, if_exists, true, views, Ok(children));
            &&& plan is Ok
            &&& plan->Ok_0.contains(EffectView::DeleteReferencingForeignKeys { db, table })
        }),
{
    let plan = drop_table(c, db, table, if_exists, true, views, Ok(children))->Ok_0;
    let at = cascade(db, views).len() as int;
    assert(plan[at] == EffectView::DeleteReferencingForeignKeys { db, table });
}

/// Where foreign keys could not be looked up, the table stays.
pub proof fn law_unknown_foreign_keys_keep_the_table(
    c: Map<Seq<char>, DatabaseView>,
    db: Seq<char>,
    table: Seq<char>,
    if_exists: bool,
    cascades: bool,
    views: Seq<Seq<char>>,
    cause: Seq<char>,
)
    requires
        c.contains_key(db),
        c[db].tables.contains_key(table),
        views.len() == 0 || cascades,
    ensures
        drop_table(c, db, table, if_exists, cascades, views, Err(cause)) is Err,
        drop_table(c, db, table, if_exists, cascades, views, Err(cause))->Err_0.kind
            == ErrorKind::Other,
        drop_table(c, db, table, if_exists, cascades, views, Err(cause))->Err_0.message
            == "Failed to check referencing foreign keys: "@ + cause,
{
}

/// A table that nothing refers to is dropped, with or without `CASCADE`, and with it go its heap
/// file, the map of that file's free space, its indexes and its rows in the system tables; the
/// catalog is saved behind the edit, and a line says what was dropped.
pub proof fn law_free_table_is_dropped_with_its_files(
    c: Map<Seq<char>, DatabaseView>,
    db: Seq<char>,
    table: Seq<char>,
    if_exists: bool,
    cascades: bool,
)
    requires
        c.contains_key(db),
        c[db].tables.contains_key(table),
    ensures
        ({
            let result = drop_table(
                c,
                db,
                table,
                if_exists,
                cascades,
                Seq::empty(),
                Ok(Seq::empty()),
            );
            let plan = result->Ok_0;
            let heap = "database/base/"@ + db + "/"@ + table + ".dat"@;
            &&& result is Ok
            &&& plan.len() == 7
            &&& plan.contains(EffectView::Edit { edit: EditView::DropTable { db, name: table } })
            &&& plan.contains(EffectView::RemoveFile { path: heap })
            &&& plan.contains(EffectView::RemoveFile { path: heap + ".fsm"@ })
            &&& plan.contains(EffectView::RemoveIndexFiles { db, table })
            &&& exists|i: int, k: int|
                0 <= i < k < plan.len() && (#[trigger] plan[i]) is Edit && (
                #[trigger] plan[k]) is SaveCatalog
            &&& exists|i: int|
                0 <= i < plan.len() && (#[trigger] plan[i]) is DeleteTableMetadata
                    && plan[i]->DeleteTableMetadata_db == db && plan[i]->DeleteTableMetadata_table
                    == table
            &&& plan.last() == (EffectView::Print {
                text: "Dropped table '"@ + table + "' from database '"@ + db + "'."@,
            })
        }),
{
    let plan = drop_table(c, db, table, if_exists, cascades, Seq::empty(), Ok(Seq::empty()))->Ok_0;
    assert(plan =~= drop_files(db, table));
    let heap = files::heap_file(db, table);
    assert(heap == "database/base/"@ + db + "/"@ + table + ".dat"@);
    assert(plan[0] == EffectView::Edit { edit: EditView::DropTable { db, name: table } });
    assert(plan[1] == EffectView::RemoveFile { path: heap });
    assert(plan[2] == EffectView::RemoveFile { path: heap + ".fsm"@ });
    assert(plan[3] == EffectView::RemoveIndexFiles { db, table });
    assert(plan[4] is DeleteTableMetadata);
    assert(plan[0] is Edit && plan[5] is SaveCatalog);
}

/// What is not there is not dropped, truncated or replaced: without `IF EXISTS` the answer is an
/// error that says what was not found.
pub proof fn law_what_is_missing_is_reported(
    c: Map<Seq<char>, DatabaseView>,
    db: Seq<char>,
    name: Seq<char>,
    flag: bool,
    views: Seq<Seq<char>>,
    foreign_keys: Result<Seq<Seq<char>>, Seq<char>>,
    query: SelectPlan,
    json: Result<Seq<char>, Seq<char>>,
)
    ensures
        !c.contains_key(db) ==> {
            let missing = ErrorView {
                kind: ErrorKind::NotFound,
                message: "Database '"@ + db + "' not found"@,
            };
            &&& drop_table(c, db, name, flag, flag, views, foreign_keys) == Err::<
                Seq<EffectView>,
                ErrorView,
            >(missing)
            &&& truncate(c, db, name) == Err::<Seq<EffectView>, ErrorView>(missing)
            &&& create_view(c, db, name, flag, query, json) == Err::<Seq<EffectView>, ErrorView>(
                missing,
            )
            &&& drop_view(c, db, name, flag) == Err::<Seq<EffectView>, ErrorView>(missing)
        },
        c.contains_key(db) && !c[db].tables.contains_key(name) ==> {
            let missing = ErrorView {
                kind: ErrorKind::NotFound,
                message: "Table '"@ + name + "' not found in database '"@ + db + "'"@,
            };
            &&& drop_table(c, db, name, false, flag, views, foreign_keys) == Err::<
                Seq<EffectView>,
                ErrorView,
            >(missing)
            &&& truncate(c, db, name) == Err::<Seq<EffectView>, ErrorView>(missing)
            &&& drop_table(c, db, name, true, flag, views, foreign_keys) == Ok::<
                Seq<EffectView>,
                ErrorView,
            >(
                seq![
                    EffectView::Print {
                        text: "Table '"@ + name
                            + "' does not exist (IF EXISTS specified, skipping)."@,
                    },
                ],
            )
        },
        c.contains_key(db) && !c[db].views.contains_key(name) ==> {
            &&& drop_view(c, db, name, false) == Err::<Seq<EffectView>, ErrorView>(
                ErrorView {
                    kind: ErrorKind::NotFound,
                    message: "View '"@ + name + "' not found in database '"@ + db + "'"@,
                },
            )
            &&& drop_view(c, db, name, true) == Ok::<Seq<EffectView>, ErrorView>(
                seq![
                    EffectView::Print {
                        text: "View '"@ + name
                            + "' does not exist (IF EXISTS specified, skipping)."@,
                    },
                ],
            )
        },
{
}

/// A truncated table has a new, empty heap file in the place of the old one, which goes first with
/// the map of its free space; its indexes go too.
pub proof fn law_truncate_empties_the_table(
    c: Map<Seq<char>, DatabaseView>,
    db: Seq<char>,
    table: Seq<char>,
)
    requires
        c.contains_key(db),
        c[db].tables.contains_key(table),
    ensures
        ({
            let plan = truncate(c, db, table)->Ok_0;
            let heap = "database/base/"@ + db + "/"@ + table + ".dat"@;
            &&& truncate(c, db, table) is Ok
            &&& plan.len() == 5
            &&& plan.contains(EffectView::RemoveFile { path: heap + ".fsm"@ })
            &&& plan.contains(EffectView::RemoveIndexFiles { db, table })
            &&& exists|i: int, k: int|
                0 <= i < k < plan.len() && (#[trigger] plan[i]) is RemoveFileIfPresent
                    && plan[i]->RemoveFileIfPresent_path == heap && (
                #[trigger] plan[k]) is CreateHeap && plan[k]->CreateHeap_path == heap
            &&& plan.last() == (EffectView::Print {
                text: "Truncated table '"@ + table + "' (0 rows)."@,
            })
        }),
{
    let plan = truncate(c, db, table)->Ok_0;
    assert(plan[0] is RemoveFileIfPresent && plan[2] is CreateHeap);
    assert(plan[1] == EffectView::RemoveFile {
        path: "database/base/"@ + db + "/"@ + table + ".dat"@ + ".fsm"@,
    });
    assert(plan[3] == EffectView::RemoveIndexFiles { db, table });
}

/// `CREATE VIEW` succeeds exactly where the query has a stored form, no table has the name, and no
/// view has it unless it is to be replaced; the view then holds the query and its stored form, and
/// nothing else in the catalog changes.
pub proof fn law_create_view_stores_the_query(
    c: Map<Seq<char>, DatabaseView>,
    db: Seq<char>,
    name: Seq<char>,
    or_replace: bool,
    query: SelectPlan,
    json: Result<Seq<char>, Seq<char>>,
)
    requires
        c.contains_key(db),
    ensures
        create_view(c, db, name, or_replace, query, json) is Ok <==> json is Ok
            && !c[db].tables.contains_key(name) && (or_replace || !c[db].views.contains_key(name)),
        json is Err ==> create_view(c, db, name, or_replace, query, json)->Err_0 == (ErrorView {
            kind: ErrorKind::InvalidData,
            message: json->Err_0,
        }),
        json is Ok && c[db].tables.contains_key(name) ==> create_view(
            c,
            db,
            name,
            or_replace,
            query,
            json,
        )->Err_0 == (ErrorView {
            kind: ErrorKind::AlreadyExists,
            message: "A table named '"@ + name + "' already exists"@,
        }),
        json is Ok && !c[db].tables.contains_key(name) && c[db].views.contains_key(name)
            && !or_replace ==> create_view(c, db, name, or_replace, query, json)->Err_0 == (
        ErrorView {
            kind: ErrorKind::AlreadyExists,
            message: "View '"@ + name + "' already exists (use OR REPLACE to modify)"@,
        }),
        create_view(c, db, name, or_replace, query, json) is Ok ==> {
            let plan = create_view(c, db, name, or_replace, query, json)->Ok_0;
            let end = effects::after(c, plan);
            &&& end == c.insert(
                db,
                DatabaseView {
                    tables: c[db].tables,
                    views: c[db].views.insert(
                        name,
                        ViewView { query_json: json->Ok_0, query: Some(query) },
                    ),
                },
            )
            &&& plan.contains(EffectView::SaveCatalog { warning: None })
            &&& plan.last() == (EffectView::Print {
                text: "View '"@ + name + "' created successfully."@,
            })
        },
{
    let result = create_view(c, db, name, or_replace, query, json);
    if result is Ok {
        lemma_one_edit(c, result->Ok_0);
        assert(result->Ok_0[1] == EffectView::SaveCatalog { warning: None });
        assert(effects::after(c, result->Ok_0) =~= c.insert(
            db,
            DatabaseView {
                tables: c[db].tables,
                views: c[db].views.insert(
                    name,
                    ViewView { query_json: json->Ok_0, query: Some(query) },
                ),
            },
        ));
    }
}

/// `DROP VIEW` takes the view out of the catalog, and nothing else, and saves the catalog.
pub proof fn law_drop_view_drops_it_alone(
    c: Map<Seq<char>, DatabaseView>,
    db: Seq<char>,
    name: Seq<char>,
    if_exists: bool,
)
    requires
        c.contains_key(db),
        c[db].views.contains_key(name),
    ensures
        drop_view(c, db, name, if_exists) is Ok,
        ({
            let plan = drop_view(c, db, name, if_exists)->Ok_0;
            &&& effects::after(c, plan) == c.insert(
                db,
                DatabaseView { tables: c[db].tables, views: c[db].views.remove(name) },
            )
            &&& plan.contains(EffectView::SaveCatalog { warning: None })
            &&& plan.last() == (EffectView::Print { text: "View '"@ + name + "' dropped."@ })
        }),
{
    let plan = drop_view(c, db, name, if_exists)->Ok_0;
    lemma_one_edit(c, plan);
    assert(plan[1] == EffectView::SaveCatalog { warning: None });
    assert(effects::after(c, plan) =~= c.insert(
        db,
        DatabaseView { tables: c[db].tables, views: c[db].views.remove(name) },
    ));
}

/// The views that go with a table are each named in a line of their own.
pub proof fn law_cascaded_views_are_named(
    c: Map<Seq<char>, DatabaseView>,
    db: Seq<char>,
    table: Seq<char>,
    if_exists: bool,
    views: Seq<Seq<char>>,
    children: Seq<Seq<char>>,
    view: Seq<char>,
)
    requires
        c.contains_key(db),
        c[db].tables.contains_key(table),
        views.contains(view),
    ensures
        drop_table(c, db, table, if_exists, true, views, Ok(children)) is Ok,
        drop_table(c, db, table, if_exists, true, views, Ok(children))->Ok_0.contains(
            EffectView::Print { text: "Cascaded drop of view '"@ + view + "'."@ },
        ),
{
    let i = choose|i: int| 0 <= i < views.len() && views[i] == view;
    lemma_cascade_line(db, views, i);
    let first = cascade(db, views);
    let line = EffectView::Print { text: "Cascaded drop of view '"@ + view + "'."@ };
    let at = choose|k: int| 0 <= k < first.len() && first[k] == line;
    let plan = drop_table(c, db, table, if_exists, true, views, Ok(children))->Ok_0;
    assert(plan[at] == line);
}

proof fn lemma_cascade_line(db: Seq<char>, views: Seq<Seq<char>>, i: int)
    requires
        0 <= i < views.len(),
    ensures
        cascade(db, views).contains(
            EffectView::Print { text: "Cascaded drop of view '"@ + views[i] + "'."@ },
        ),
    decreases views.len(),
{
    let all = cascade(db, views);
    let before = cascade(db, views.drop_last());
    let line = EffectView::Print { text: "Cascaded drop of view '"@ + views[i] + "'."@ };
    if i == views.len() - 1 {
        assert(all[before.len() as int + 1] == line);
    } else {
        lemma_cascade_line(db, views.drop_last(), i);
        let k = choose|k: int| 0 <= k < before.len() && before[k] == line;
        assert(all[k] == line);
    }
}

/// A view whose query could not be decoded, or does not read the table, does not go with it, and
/// does not keep it from being dropped.
pub proof fn law_other_views_stay(
    c: Map<Seq<char>, DatabaseView>,
    db: Seq<char>,
    table: Seq<char>,
    if_exists: bool,
    cascades: bool,
    views: Seq<Seq<char>>,
    children: Seq<Seq<char>>,
    view: Seq<char>,
)
    requires
        c.contains_key(db),
        c[db].tables.contains_key(table),
        c[db].views.contains_key(view),
        c[db].views[view].query matches Some(query) ==> !references::plan_refs(query, table),
        dependents(c, db, table, views),
    ensures
        !views.contains(view),
        drop_table(c, db, table, if_exists, cascades, views, Ok(children)) is Ok ==> {
            let end = effects::after(
                c,
                drop_table(c, db, table, if_exists, cascades, views, Ok(children))->Ok_0,
            );
            end[db].views.contains_key(view) && end[db].views[view] == c[db].views[view]
        },
        (forall|k: Seq<char>| #[trigger]
            c[db].views.contains_key(k) ==> (c[db].views[k].query matches Some(query)
                ==> !references::plan_refs(query, table))) ==> views.len() == 0,
{
    assert(!view_depends(c[db].views[view], table));
    if drop_table(c, db, table, if_exists, cascades, views, Ok(children)) is Ok {
        law_drop_table_drops_the_table_and_its_views(
            c,
            db,
            table,
            if_exists,
            cascades,
            views,
            Ok(children),
        );
    }
    if views.len() > 0 {
        let k = views[0];
        assert(views.contains(k));
        assert(c[db].views.contains_key(k));
    }
}

/// A failure of `TRUNCATE` says at which step it came.
pub proof fn law_truncate_says_where_it_fails(
    c: Map<Seq<char>, DatabaseView>,
    db: Seq<char>,
    table: Seq<char>,
    i: int,
)
    requires
        truncate(c, db, table) is Ok,
        0 <= i < truncate(c, db, table)->Ok_0.len(),
    ensures
        truncate(c, db, table)->Ok_0[i] matches EffectView::RemoveFileIfPresent { context, .. }
            ==> context == "Failed to remove table file: "@,
        truncate(c, db, table)->Ok_0[i] matches EffectView::CreateHeap {
            create_context,
            flush_context,
            ..
        } ==> create_context == "Failed to create table file: "@ && flush_context
            == "Failed to flush table file: "@,
{
}

/// What fails while a table is dropped is warned about, with the table that it was about.
pub proof fn law_drop_table_warns_of_the_table(
    c: Map<Seq<char>, DatabaseView>,
    db: Seq<char>,
    table: Seq<char>,
    if_exists: bool,
    cascades: bool,
    views: Seq<Seq<char>>,
    foreign_keys: Result<Seq<Seq<char>>, Seq<char>>,
    i: int,
)
    requires
        drop_table(c, db, table, if_exists, cascades, views, foreign_keys) is Ok,
        0 <= i < drop_table(c, db, table, if_exists, cascades, views, foreign_keys)->Ok_0.len(),
    ensures
        ({
            let effect = drop_table(c, db, table, if_exists, cascades, views, foreign_keys)->Ok_0[i];
            &&& effect matches EffectView::DeleteTableMetadata { warning, .. } ==> warning
                == "[DropTable] Warning: failed to clean up system table metadata for '"@ + db
                + "."@ + table + "': "@
            &&& effect matches EffectView::SaveCatalog { warning } ==> warning == Some(
                "[DropTable] Warning: failed to save catalog after dropping table '"@ + db + "."@
                    + table + "': "@,
            )
        }),
{
    lemma_cascade_kinds(db, views);
}

proof fn lemma_cascade_kinds(db: Seq<char>, views: Seq<Seq<char>>)
    ensures
        forall|k: int|
            0 <= k < cascade(db, views).len() ==> (#[trigger] cascade(db, views)[k]) is Edit
                || cascade(db, views)[k] is Print,
    decreases views.len(),
{
    if views.len() > 0 {
        lemma_cascade_kinds(db, views.drop_last());
        let before = cascade(db, views.drop_last());
        let all = cascade(db, views);
        assert forall|k: int| 0 <= k < all.len() implies (#[trigger] all[k]) is Edit || all[k] is Print by {
            if k < before.len() {
                assert(all[k] == before[k]);
            }
        }
    }
}

} // verus!
