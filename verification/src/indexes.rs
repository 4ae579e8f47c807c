//! `DROP INDEX`.

use vstd::prelude::*;
use crate::catalog::{Catalog, DatabaseView};
use crate::effects;
use crate::effects::{Effect, EffectView};
use crate::errors;
use crate::errors::{DbError, ErrorKind, ErrorView};
use crate::files;
use crate::text;

verus! {

/// What the metadata file beside an unnamed index says.
#[derive(Debug, PartialEq)]
pub enum LegacyMeta {
    /// There is none, or it could not be read.
    Unreadable,
    /// It does not name a column.
    Invalid,
    /// It names this column.
    Column(String),
}

/// A file in a database's directory, with what `{table}.idx.meta` says where it is `{table}.idx`.
#[derive(Debug, PartialEq)]
pub struct IndexFile {
    pub name: String,
    pub meta: LegacyMeta,
}

/// What is on disk when an index is to be dropped.
#[derive(Debug, PartialEq)]
pub struct IndexProbe {
    /// `{table}.{index}.idx` exists.
    pub named_exists: bool,
    /// `{table}.idx` exists.
    pub legacy_exists: bool,
    /// What `{table}.idx.meta` says.
    pub legacy_meta: LegacyMeta,
    /// The database has a directory.
    pub base_exists: bool,
    /// The files in it, in the order in which the system lists them.
    pub files: Vec<IndexFile>,
}

/// The name that an unnamed index over `column` of `table` goes by.
pub open spec fn generated_name(table: Seq<char>, column: Seq<char>) -> Seq<char> {
    "idx_"@ + table + "_"@ + column
}

/// The metadata gives an unnamed index of `table` the name `index`.
pub open spec fn meta_names(meta: LegacyMeta, table: Seq<char>, index: Seq<char>) -> bool {
    meta matches LegacyMeta::Column(c) && text::same_fold(generated_name(table, c@), index)
}

/// The table whose index `index` the file holds.
///
/// The file `{table}.{name}.idx` holds the index `name`. The file `{table}.idx` holds the index
/// that its metadata gives it.
pub open spec fn holds_index(file: IndexFile, index: Seq<char>) -> Option<Seq<char>> {
    if !".idx"@.is_suffix_of(file.name@) {
        None
    } else {
        let stem = file.name@.take(file.name@.len() - ".idx"@.len());
        match text::rfind(stem, '.') {
            Some(dot) => if text::same_fold(stem.skip(dot + 1), index) {
                Some(stem.take(dot))
            } else {
                None
            },
            None => if meta_names(file.meta, stem, index) {
                Some(stem)
            } else {
                None
            },
        }
    }
}

/// The first file that holds the index.
pub open spec fn first_holder(files: Seq<IndexFile>, index: Seq<char>) -> Option<int>
    decreases files.len(),
{
    if files.len() == 0 {
        None
    } else if holds_index(files[0], index) is Some {
        Some(0)
    } else {
        match first_holder(files.drop_first(), index) {
            Some(i) => Some(i + 1),
            None => None,
        }
    }
}

pub open spec fn skip_line(index: Seq<char>) -> Seq<char> {
    "Index '"@ + index + "' does not exist (IF EXISTS specified, skipping)."@
}

pub open spec fn dropped_line(index: Seq<char>, table: Seq<char>) -> Seq<char> {
    "Dropped index '"@ + index + "' from table '"@ + table + "'."@
}

/// An index that is not there: skipped on request, an error otherwise.
pub open spec fn missing_index(index: Seq<char>, if_exists: bool, message: Seq<char>) -> Result<
    Seq<EffectView>,
    ErrorView,
> {
    if if_exists {
        Ok(seq![EffectView::Print { text: skip_line(index) }])
    } else {
        Err(errors::error(ErrorKind::NotFound, message))
    }
}

/// Why the index is not found on a named table.
pub open spec fn missing_on_table(table: Seq<char>, index: Seq<char>, probe: IndexProbe) -> Seq<
    char,
> {
    if !probe.legacy_exists {
        "Index file not found for table '"@ + table + "'"@
    } else if probe.legacy_meta is Invalid {
        "Index file found but metadata invalid for '"@ + index + "'"@
    } else {
        "Index '"@ + index + "' not found on table '"@ + table + "'"@
    }
}

/// `DROP INDEX` on a named table.
///
/// The index's own file comes first; the table's unnamed index counts where its metadata gives it
/// this name.
pub open spec fn drop_on_table(
    db: Seq<char>,
    index: Seq<char>,
    table: Seq<char>,
    if_exists: bool,
    probe: IndexProbe,
) -> Result<Seq<EffectView>, ErrorView> {
    let named = files::named_index_file(db, table, index);
    let legacy = files::legacy_index_file(db, table);
    let rest = seq![
        EffectView::DeleteIndexMetadata {
            db,
            table,
            index,
            warning: "[DropIndex] Warning: failed to clean up sys_indexes for '"@ + index + "': "@,
        },
        EffectView::Print { text: dropped_line(index, table) },
    ];
    if probe.named_exists {
        Ok(
            seq![
                EffectView::RemoveFile { path: named },
                EffectView::RemoveFile { path: files::meta_file(named) },
            ] + rest,
        )
    } else if probe.legacy_exists && meta_names(probe.legacy_meta, table, index) {
        Ok(
            seq![
                EffectView::RemoveFileOrFail { path: legacy, context: Seq::empty() },
                EffectView::RemoveFile { path: files::meta_file(legacy) },
            ] + rest,
        )
    } else {
        missing_index(index, if_exists, missing_on_table(table, index, probe))
    }
}

/// `DROP INDEX` without a table: the first file in the directory that holds the index.
pub open spec fn drop_by_name(
    db: Seq<char>,
    index: Seq<char>,
    if_exists: bool,
    probe: IndexProbe,
) -> Result<Seq<EffectView>, ErrorView> {
    if !probe.base_exists {
        Err(
            errors::error(
                ErrorKind::NotFound,
                "Database directory '"@ + files::base_dir(db) + "' not found"@,
            ),
        )
    } else {
        match first_holder(probe.files@, index) {
            Some(i) => {
                let file = probe.files@[i];
                let table = holds_index(file, index)->0;
                let path = files::base_file(db, file.name@);
                Ok(
                    seq![
                        EffectView::RemoveFileOrFail { path, context: Seq::empty() },
                        EffectView::RemoveFile { path: files::meta_file(path) },
                        EffectView::DeleteIndexMetadata {
                            db,
                            table,
                            index,
                            warning: "[DropIndex] Warning: failed to clean up sys_indexes: "@,
                        },
                        EffectView::Print { text: dropped_line(index, table) },
                    ],
                )
            },
            None => missing_index(
                index,
                if_exists,
                "Index '"@ + index + "' not found in database '"@ + db + "'"@,
            ),
        }
    }
}

/// What `DROP INDEX` does.
pub open spec fn drop_index(
    c: Map<Seq<char>, DatabaseView>,
    db: Seq<char>,
    index: Seq<char>,
    table: Seq<char>,
    if_exists: bool,
    probe: IndexProbe,
) -> Result<Seq<EffectView>, ErrorView> {
    if !c.contains_key(db) {
        Err(errors::error(ErrorKind::NotFound, "Database '"@ + db + "' not found"@))
    } else if table.len() > 0 {
        drop_on_table(db, index, table, if_exists, probe)
    } else {
        drop_by_name(db, index, if_exists, probe)
    }
}

fn meta_gives_name(meta: &LegacyMeta, table: &str, index: &str) -> (r: bool)
    ensures
        r == meta_names(*meta, table@, index@),
{
    match meta {
        LegacyMeta::Column(c) => {
            let name = text::cat4("idx_", table, "_", c.as_str());
            text::same_ignoring_case(name.as_str(), index)
        },
        _ => false,
    }
}

/// The table whose index `index` the file holds.
fn holder(file: &IndexFile, index: &str) -> (r: Option<String>)
    ensures
        match r {
            Some(table) => holds_index(*file, index@) == Some(table@),
            None => holds_index(*file, index@) is None,
        },
{
    let name = file.name.as_str();
    if !text::ends_with(name, ".idx") {
        return None;
    }
    let n: usize = name.unicode_len();
    let k: usize = ".idx".unicode_len();
    let stem = text::head(name, n - k);
    match text::rfind_char(stem, '.') {
        Some(dot) => {
            if text::same_ignoring_case(text::tail(stem, dot + 1), index) {
                Some(text::head(stem, dot).to_owned())
            } else {
                None
            }
        },
        None => {
            if meta_gives_name(&file.meta, stem, index) {
                Some(stem.to_owned())
            } else {
                None
            }
        },
    }
}

fn missing(index: &str, if_exists: bool, message: String) -> (r: Result<Vec<Effect>, DbError>)
    ensures
        effects::outcome(r) == missing_index(index@, if_exists, message@),
{
    if if_exists {
        let mut out: Vec<Effect> = Vec::new();
        out.push(
            Effect::Print {
                text: text::cat3(
                    "Index '",
                    index,
                    "' does not exist (IF EXISTS specified, skipping).",
                ),
            },
        );
        assert(effects::shown(out@) =~= seq![EffectView::Print { text: skip_line(index@) }]);
        Ok(out)
    } else {
        Err(DbError { kind: ErrorKind::NotFound, message })
    }
}

/// Plans `DROP INDEX`.
pub fn execute_drop_index(
    catalog: &Catalog,
    db: &str,
    index_name: &str,
    table_name: &str,
    if_exists: bool,
    probe: &IndexProbe,
) -> (r: Result<Vec<Effect>, DbError>)
    ensures
        effects::outcome(r) == drop_index(
            catalog@,
            db@,
            index_name@,
            table_name@,
            if_exists,
            *probe,
        ),
{
    if !catalog.databases.contains_key(db) {
        let message = text::cat3("Database '", db, "' not found");
        return Err(DbError { kind: ErrorKind::NotFound, message });
    }
    if table_name.unicode_len() > 0 {
        execute_drop_on_table(db, index_name, table_name, if_exists, probe)
    } else {
        execute_drop_by_name(db, index_name, if_exists, probe)
    }
}

fn execute_drop_on_table(
    db: &str,
    index: &str,
    table: &str,
    if_exists: bool,
    probe: &IndexProbe,
) -> (r: Result<Vec<Effect>, DbError>)
    ensures
        effects::outcome(r) == drop_on_table(db@, index@, table@, if_exists, *probe),
{
    let mut out: Vec<Effect> = Vec::new();
    if probe.named_exists {
        let named = files::named_index_path(db, table, index);
        let meta = files::meta_path(named.as_str());
        out.push(Effect::RemoveFile { path: named });
        out.push(Effect::RemoveFile { path: meta });
    } else if probe.legacy_exists && meta_gives_name(&probe.legacy_meta, table, index) {
        let legacy = files::legacy_index_path(db, table);
        let meta = files::meta_path(legacy.as_str());
        out.push(Effect::RemoveFileOrFail { path: legacy, context: String::new() });
        out.push(Effect::RemoveFile { path: meta });
    } else {
        let message = if !probe.legacy_exists {
            text::cat3("Index file not found for table '", table, "'")
        } else {
            match &probe.legacy_meta {
                LegacyMeta::Invalid => text::cat3(
                    "Index file found but metadata invalid for '",
                    index,
                    "'",
                ),
                _ => text::cat5("Index '", index, "' not found on table '", table, "'"),
            }
        };
        return missing(index, if_exists, message);
    }
    out.push(
        Effect::DeleteIndexMetadata {
            db: db.to_owned(),
            table: table.to_owned(),
            index: index.to_owned(),
            warning: text::cat3(
                "[DropIndex] Warning: failed to clean up sys_indexes for '",
                index,
                "': ",
            ),
        },
    );
    out.push(
        Effect::Print { text: text::cat5("Dropped index '", index, "' from table '", table, "'.") },
    );
    assert(effects::shown(out@) =~= drop_on_table(db@, index@, table@, if_exists, *probe)->Ok_0);
    Ok(out)
}

fn execute_drop_by_name(db: &str, index: &str, if_exists: bool, probe: &IndexProbe) -> (r: Result<
    Vec<Effect>,
    DbError,
>)
    ensures
        effects::outcome(r) == drop_by_name(db@, index@, if_exists, *probe),
{
    if !probe.base_exists {
        let base = files::base_path(db);
        let message = text::cat3("Database directory '", base.as_str(), "' not found");
        return Err(DbError { kind: ErrorKind::NotFound, message });
    }
    let ghost all = probe.files@;
    let mut i: usize = 0;
    assert(all.skip(0) =~= all);
    while i < probe.files.len()
        invariant
            i <= probe.files.len(),
            all == probe.files@,
            probe.base_exists,
            first_holder(all, index@) == match first_holder(all.skip(i as int), index@) {
                Some(k) => Some(k + i),
                None => None::<int>,
            },
        decreases probe.files.len() - i,
    {
        let file = &probe.files[i];
        assert(all.skip(i as int)[0] == *file);
        assert(all.skip(i as int).drop_first() =~= all.skip(i + 1));
        if let Some(table) = holder(file, index) {
            assert(first_holder(all, index@) == Some(i as int));
            let path = files::file_path(db, file.name.as_str());
            let meta = files::meta_path(path.as_str());
            let mut out: Vec<Effect> = Vec::new();
            out.push(Effect::RemoveFileOrFail { path, context: String::new() });
            out.push(Effect::RemoveFile { path: meta });
            out.push(
                Effect::DeleteIndexMetadata {
                    db: db.to_owned(),
                    table: table.clone(),
                    index: index.to_owned(),
                    warning: "[DropIndex] Warning: failed to clean up sys_indexes: ".to_owned(),
                },
            );
            out.push(
                Effect::Print {
                    text: text::cat5("Dropped index '", index, "' from table '", table.as_str(), "'."),
                },
            );
            assert(effects::shown(out@) =~= drop_by_name(db@, index@, if_exists, *probe)->Ok_0);
            return Ok(out);
        }
        i = i + 1;
    }
    assert(first_holder(all, index@) is None);
    missing(index, if_exists, text::cat5("Index '", index, "' not found in database '", db, "'"))
}

/// `DROP INDEX` leaves the catalog as it is.
pub proof fn law_drop_index_keeps_the_catalog(
    c: Map<Seq<char>, DatabaseView>,
    db: Seq<char>,
    index: Seq<char>,
    table: Seq<char>,
    if_exists: bool,
    probe: IndexProbe,
)
    requires
        drop_index(c, db, index, table, if_exists, probe) is Ok,
    ensures
        effects::after(c, drop_index(c, db, index, table, if_exists, probe)->Ok_0) == c,
{
    effects::lemma_after_no_edit(c, drop_index(c, db, index, table, if_exists, probe)->Ok_0);
}

/// With `IF EXISTS`, dropping an index that is not there is no error, in a database that has a
/// directory.
pub proof fn law_drop_index_if_exists_never_fails(
    c: Map<Seq<char>, DatabaseView>,
    db: Seq<char>,
    index: Seq<char>,
    table: Seq<char>,
    probe: IndexProbe,
)
    requires
        c.contains_key(db),
        probe.base_exists,
    ensures
        drop_index(c, db, index, table, true, probe) is Ok,
{
}

/// A file goes, whether or not that may fail.
pub open spec fn removes(plan: Seq<EffectView>, path: Seq<char>) -> bool {
    exists|i: int| 0 <= i < plan.len() && removes_at(#[trigger] plan[i], path)
}

pub open spec fn removes_at(e: EffectView, path: Seq<char>) -> bool {
    match e {
        EffectView::RemoveFile { path: p } => p == path,
        EffectView::RemoveFileOrFail { path: p, .. } => p == path,
        _ => false,
    }
}

/// An index that is found goes with its metadata: its file, and the file of that name with
/// `.meta` behind it.
pub proof fn law_found_index_goes_with_its_metadata(
    c: Map<Seq<char>, DatabaseView>,
    db: Seq<char>,
    index: Seq<char>,
    if_exists: bool,
    probe: IndexProbe,
)
    requires
        c.contains_key(db),
        probe.base_exists,
        first_holder(probe.files@, index) is Some,
    ensures
        ({
            let plan = drop_index(c, db, index, Seq::empty(), if_exists, probe);
            let path = files::base_file(
                db,
                probe.files@[first_holder(probe.files@, index)->0].name@,
            );
            plan is Ok && removes(plan->Ok_0, path) && removes(
                plan->Ok_0,
                files::meta_file(path),
            )
        }),
{
    let plan = drop_index(c, db, index, Seq::empty(), if_exists, probe)->Ok_0;
    let path = files::base_file(db, probe.files@[first_holder(probe.files@, index)->0].name@);
    assert(removes_at(plan[0], path));
    assert(removes_at(plan[1], files::meta_file(path)));
}

/// On a named table too, an index that is found goes with its metadata: the index's own file
/// where there is one, and else the table's unnamed index that goes by the name.
pub proof fn law_index_on_table_goes_with_its_metadata(
    c: Map<Seq<char>, DatabaseView>,
    db: Seq<char>,
    index: Seq<char>,
    table: Seq<char>,
    if_exists: bool,
    probe: IndexProbe,
)
    requires
        c.contains_key(db),
        table.len() > 0,
        probe.named_exists || probe.legacy_exists && meta_names(probe.legacy_meta, table, index),
    ensures
        ({
            let plan = drop_index(c, db, index, table, if_exists, probe);
            let path = if probe.named_exists {
                files::named_index_file(db, table, index)
            } else {
                files::legacy_index_file(db, table)
            };
            plan is Ok && removes(plan->Ok_0, path) && removes(
                plan->Ok_0,
                files::meta_file(path),
            )
        }),
{
    let plan = drop_index(c, db, index, table, if_exists, probe)->Ok_0;
    let path = if probe.named_exists {
        files::named_index_file(db, table, index)
    } else {
        files::legacy_index_file(db, table)
    };
    assert(removes_at(plan[0], path));
    assert(removes_at(plan[1], files::meta_file(path)));
}

/// The file `{table}.{name}.idx` holds the index of that name, in whatever letter case it is asked
/// for, of that table, and no other index.
pub proof fn law_named_file_holds_its_index(
    table: Seq<char>,
    name: Seq<char>,
    index: Seq<char>,
    file: IndexFile,
)
    requires
        file.name@ == table + "."@ + name + ".idx"@,
        !name.contains('.'),
    ensures
        text::ascii_lower(name) == text::ascii_lower(index) ==> holds_index(file, index) == Some(
            table,
        ),
        text::ascii_lower(name) != text::ascii_lower(index) ==> holds_index(file, index) is None,
{
    reveal_strlit(".");
    reveal_strlit(".idx");
    let f = file.name@;
    assert(".idx"@ =~= f.subrange(f.len() - 4, f.len() as int));
    let stem = f.take(f.len() - 4);
    assert(stem =~= table + "."@ + name);
    let dot = table.len() as int;
    assert(stem[dot] == '.');
    text::lemma_rfind(stem, '.');
    assert(stem.contains('.'));
    assert forall|j: int| dot < j < stem.len() implies stem[j] != '.' by {
        assert(stem[j] == name[j - dot - 1]);
    }
    assert(text::rfind(stem, '.') == Some(dot));
    assert(stem.skip(dot + 1) =~= name);
    assert(stem.take(dot) =~= table);
}

/// The file `{table}.idx` holds the index that its metadata gives it by its column, in whatever
/// letter case it is asked for; without such metadata it holds none.
pub proof fn law_unnamed_file_holds_the_index_of_its_column(
    table: Seq<char>,
    column: Seq<char>,
    index: Seq<char>,
    file: IndexFile,
)
    requires
        file.name@ == table + ".idx"@,
        !table.contains('.'),
    ensures
        (file.meta matches LegacyMeta::Column(c) && c@ == column) ==> holds_index(file, index) == (
        if text::ascii_lower("idx_"@ + table + "_"@ + column) == text::ascii_lower(index) {
            Some(table)
        } else {
            None
        }),
        !(file.meta is Column) ==> holds_index(file, index) is None,
{
    reveal_strlit(".idx");
    let f = file.name@;
    assert(".idx"@ =~= f.subrange(f.len() - 4, f.len() as int));
    let stem = f.take(f.len() - 4);
    assert(stem =~= table);
    text::lemma_rfind(stem, '.');
}

/// No other file holds an index.
pub proof fn law_other_files_hold_no_index(index: Seq<char>, file: IndexFile)
    requires
        !".idx"@.is_suffix_of(file.name@),
    ensures
        holds_index(file, index) is None,
{
}

/// An index is looked for in every file, and found in the first that holds it.
pub proof fn law_first_file_that_holds_the_index(files: Seq<IndexFile>, index: Seq<char>)
    ensures
        match first_holder(files, index) {
            Some(i) => {
                &&& 0 <= i < files.len()
                &&& holds_index(files[i], index) is Some
                &&& forall|j: int| 0 <= j < i ==> holds_index(#[trigger] files[j], index) is None
            },
            None => forall|j: int|
                0 <= j < files.len() ==> holds_index(#[trigger] files[j], index) is None,
        },
    decreases files.len(),
{
    if files.len() > 0 && holds_index(files[0], index) is None {
        let t = files.drop_first();
        law_first_file_that_holds_the_index(t, index);
        assert(forall|j: int| 0 <= j < t.len() ==> t[j] == files[j + 1]);
        match first_holder(t, index) {
            Some(i) => {
                assert forall|j: int| 0 <= j < i + 1 implies holds_index(
                    #[trigger] files[j],
                    index,
                ) is None by {
                    if j > 0 {
                        assert(t[j - 1] == files[j]);
                    }
                }
            },
            None => {
                assert forall|j: int| 0 <= j < files.len() implies holds_index(
                    #[trigger] files[j],
                    index,
                ) is None by {
                    if j > 0 {
                        assert(t[j - 1] == files[j]);
                    }
                }
            },
        }
    }
}

/// An index that is found by its name alone goes from the table that it belongs to: its file and
/// its metadata go, its entry goes, and this is reported; no other file goes.
pub proof fn law_index_is_dropped_from_its_table(
    c: Map<Seq<char>, DatabaseView>,
    db: Seq<char>,
    index: Seq<char>,
    if_exists: bool,
    probe: IndexProbe,
    i: int,
)
    requires
        c.contains_key(db),
        probe.base_exists,
        0 <= i < probe.files@.len(),
        holds_index(probe.files@[i], index) is Some,
        forall|j: int| 0 <= j < i ==> holds_index(#[trigger] probe.files@[j], index) is None,
    ensures
        ({
            let table = holds_index(probe.files@[i], index)->0;
            let path = "database/base/"@ + db + "/"@ + probe.files@[i].name@;
            let r = drop_index(c, db, index, Seq::empty(), if_exists, probe);
            &&& r is Ok
            &&& r->Ok_0.len() == 4
            &&& r->Ok_0[0] == (EffectView::RemoveFileOrFail { path, context: Seq::empty() })
            &&& r->Ok_0[1] == (EffectView::RemoveFile { path: path + ".meta"@ })
            &&& r->Ok_0[2] == (EffectView::DeleteIndexMetadata {
                db,
                table,
                index,
                warning: "[DropIndex] Warning: failed to clean up sys_indexes: "@,
            })
            &&& r->Ok_0[3] == (EffectView::Print {
                text: "Dropped index '"@ + index + "' from table '"@ + table + "'."@,
            })
        }),
{
    law_first_file_that_holds_the_index(probe.files@, index);
    let k = first_holder(probe.files@, index);
    assert(k is Some);
    if k->0 < i {
        assert(holds_index(probe.files@[k->0], index) is None);
    }
    if i < k->0 {
        assert(holds_index(probe.files@[i], index) is None);
    }
}

/// On a named table, the index's own file is taken before the unnamed one; its entry goes, and this
/// is reported; no other file goes.
pub proof fn law_index_is_dropped_from_the_named_table(
    c: Map<Seq<char>, DatabaseView>,
    db: Seq<char>,
    index: Seq<char>,
    table: Seq<char>,
    if_exists: bool,
    probe: IndexProbe,
    column: Seq<char>,
)
    requires
        c.contains_key(db),
        table.len() > 0,
        probe.named_exists || probe.legacy_exists && (probe.legacy_meta matches LegacyMeta::Column(
            n,
        ) && n@ == column && text::ascii_lower("idx_"@ + table + "_"@ + column)
            == text::ascii_lower(index)),
    ensures
        ({
            let path = if probe.named_exists {
                "database/base/"@ + db + "/"@ + table + "."@ + index + ".idx"@
            } else {
                "database/base/"@ + db + "/"@ + table + ".idx"@
            };
            let r = drop_index(c, db, index, table, if_exists, probe);
            &&& r is Ok
            &&& r->Ok_0.len() == 4
            &&& removes_at(r->Ok_0[0], path)
            &&& removes_at(r->Ok_0[1], path + ".meta"@)
            &&& r->Ok_0[2] == (EffectView::DeleteIndexMetadata {
                db,
                table,
                index,
                warning: "[DropIndex] Warning: failed to clean up sys_indexes for '"@ + index
                    + "': "@,
            })
            &&& r->Ok_0[3] == (EffectView::Print {
                text: "Dropped index '"@ + index + "' from table '"@ + table + "'."@,
            })
        }),
{
}

/// An index that is nowhere is skipped with `IF EXISTS`, with one line and nothing removed, and is
/// not found otherwise; so is one on a table whose files give it no such name. A database that is
/// not there is never skipped.
pub proof fn law_missing_index_is_reported(
    c: Map<Seq<char>, DatabaseView>,
    db: Seq<char>,
    index: Seq<char>,
    table: Seq<char>,
    if_exists: bool,
    probe: IndexProbe,
)
    requires
        table.len() == 0 ==> forall|j: int|
            0 <= j < probe.files@.len() ==> holds_index(#[trigger] probe.files@[j], index) is None,
        table.len() > 0 ==> !probe.named_exists && (!probe.legacy_exists || !(
        probe.legacy_meta is Column)),
    ensures
        ({
            let r = drop_index(c, db, index, table, if_exists, probe);
            &&& !c.contains_key(db) ==> r is Err && r->Err_0.kind is NotFound
                && r->Err_0.message == "Database '"@ + db + "' not found"@
            &&& c.contains_key(db) && (probe.base_exists || table.len() > 0) && if_exists ==> r
                is Ok && r->Ok_0 == seq![
                EffectView::Print {
                    text: "Index '"@ + index
                        + "' does not exist (IF EXISTS specified, skipping)."@,
                },
            ]
            &&& c.contains_key(db) && !if_exists ==> r is Err && r->Err_0.kind is NotFound
            &&& c.contains_key(db) && !if_exists && table.len() == 0 && probe.base_exists
                ==> r->Err_0.message == "Index '"@ + index + "' not found in database '"@ + db
                + "'"@
            &&& c.contains_key(db) && table.len() == 0 && !probe.base_exists ==> r is Err
                && r->Err_0.message == "Database directory 'database/base/"@ + db
                + "' not found"@
            &&& c.contains_key(db) && !if_exists && table.len() > 0 && !probe.legacy_exists
                ==> r->Err_0.message == "Index file not found for table '"@ + table + "'"@
            &&& c.contains_key(db) && !if_exists && table.len() > 0 && probe.legacy_exists
                && probe.legacy_meta is Invalid ==> r->Err_0.message
                == "Index file found but metadata invalid for '"@ + index + "'"@
            &&& c.contains_key(db) && !if_exists && table.len() > 0 && probe.legacy_exists
                && probe.legacy_meta is Unreadable ==> r->Err_0.message == "Index '"@ + index
                + "' not found on table '"@ + table + "'"@
        }),
{
    law_first_file_that_holds_the_index(probe.files@, index);
    reveal_strlit("Database directory '");
    reveal_strlit("database/base/");
    reveal_strlit("Database directory 'database/base/");
    assert("Database directory '"@ + ("database/base/"@ + db) + "' not found"@
        =~= "Database directory 'database/base/"@ + db + "' not found"@);
}

} // verus!
