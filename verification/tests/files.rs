use rookdb::catalog::{Catalog, Database};
use rookdb::directory::Directory;
use rookdb::effects::Effect;
use rookdb::errors::{DbError, ErrorKind};
use rookdb::files::{
    base_path, file_path, fsm_path, heap_path, legacy_index_path, meta_path, named_index_path,
    names_index_of, remove_index_files_for_table, rename_index_files_for_table, DirListing,
};
use rookdb::indexes::{execute_drop_index, IndexFile, IndexProbe, LegacyMeta};
use rookdb::text::{
    byte_offset, char_at_byte, decimal_text, first_word, join, rfind_char,
    same_ignoring_case, signed_decimal_text, strip_prefixes, to_ascii_upper, trimmed,
    trimmed_start, zero_pad,
};

fn s(t: &str) -> String {
    t.to_string()
}

fn names(list: &[&str]) -> DirListing {
    DirListing::Names(list.iter().map(|n| s(n)).collect())
}

#[test]
fn paths() {
    assert_eq!(base_path("db"), "database/base/db");
    assert_eq!(file_path("db", "x"), "database/base/db/x");
    assert_eq!(heap_path("db", "t"), "database/base/db/t.dat");
    assert_eq!(fsm_path("h"), "h.fsm");
    assert_eq!(legacy_index_path("db", "t"), "database/base/db/t.idx");
    assert_eq!(named_index_path("db", "t", "i"), "database/base/db/t.i.idx");
    assert_eq!(meta_path("x.idx"), "x.idx.meta");
}

#[test]
fn index_files_of_a_table_are_told_by_name() {
    assert!(names_index_of("t.i.idx", "t"));
    assert!(names_index_of("t.idx.meta", "t"));
    assert!(!names_index_of("tt.i.idx", "t"));
    assert!(!names_index_of("t.dat", "t"));
    assert!(!names_index_of("T.idx", "t"));
}

#[test]
fn indexes_go_with_their_table() {
    let listing = names(&["t.dat", "t.a.idx", "u.a.idx", "t.a.idx.meta", "t.idx"]);
    assert_eq!(
        remove_index_files_for_table("db", "t", None, &listing),
        vec![
            "database/base/db/t.idx",
            "database/base/db/t.idx.meta",
            "database/base/db/t.a.idx",
            "database/base/db/t.a.idx.meta",
            "database/base/db/t.idx",
        ]
    );
    assert_eq!(
        remove_index_files_for_table("db", "t", Some("a"), &listing),
        vec!["database/base/db/t.a.idx", "database/base/db/t.a.idx.meta"]
    );
    assert_eq!(
        remove_index_files_for_table("db", "t", None, &DirListing::Unreadable),
        vec!["database/base/db/t.idx", "database/base/db/t.idx.meta"]
    );
    let none: Vec<String> = vec![];
    assert_eq!(remove_index_files_for_table("db", "t", None, &DirListing::Missing), none);
    assert_eq!(remove_index_files_for_table("db", "t", Some("a"), &DirListing::Missing), none);
}

#[test]
fn indexes_are_renamed_with_their_table() {
    let listing = names(&["old.a.idx", "older.a.idx", "old.dat", "old.a.idx.meta"]);
    let pair = |a: &str, b: &str| (s(a), s(b));
    let base = vec![
        pair("database/base/db/old.idx", "database/base/db/new.idx"),
        pair("database/base/db/old.idx.meta", "database/base/db/new.idx.meta"),
    ];
    let mut all = base.clone();
    all.push(pair("database/base/db/old.a.idx", "database/base/db/new.a.idx"));
    all.push(pair("database/base/db/old.a.idx.meta", "database/base/db/new.a.idx.meta"));
    assert_eq!(rename_index_files_for_table("db", "old", "new", &listing), all);
    assert_eq!(rename_index_files_for_table("db", "old", "new", &DirListing::Unreadable), base);
    assert_eq!(rename_index_files_for_table("db", "old", "new", &DirListing::Missing), vec![]);
}

fn catalog() -> Catalog {
    let mut databases = Directory::new();
    databases.insert(s("db"), Database { tables: Directory::new(), views: Directory::new() });
    Catalog { databases }
}

fn probe() -> IndexProbe {
    IndexProbe {
        named_exists: false,
        legacy_exists: false,
        legacy_meta: LegacyMeta::Unreadable,
        base_exists: true,
        files: vec![],
    }
}

fn missing<T>(message: &str) -> Result<T, DbError> {
    Err(DbError { kind: ErrorKind::NotFound, message: s(message) })
}

#[test]
fn a_named_index_is_dropped_from_its_table() {
    let mut p = probe();
    p.named_exists = true;
    assert_eq!(
        execute_drop_index(&catalog(), "db", "i", "t", false, &p),
        Ok(vec![
            Effect::RemoveFile { path: s("database/base/db/t.i.idx") },
            Effect::RemoveFile { path: s("database/base/db/t.i.idx.meta") },
            Effect::DeleteIndexMetadata {
                db: s("db"),
                table: s("t"),
                index: s("i"),
                warning: s("[DropIndex] Warning: failed to clean up sys_indexes for 'i': "),
            },
            Effect::Print { text: s("Dropped index 'i' from table 't'.") },
        ])
    );
}

#[test]
fn an_unnamed_index_goes_by_its_generated_name() {
    let mut p = probe();
    p.legacy_exists = true;
    p.legacy_meta = LegacyMeta::Column(s("c"));
    let plan = execute_drop_index(&catalog(), "db", "IDX_T_C", "t", false, &p).unwrap();
    assert_eq!(
        plan[0],
        Effect::RemoveFileOrFail { path: s("database/base/db/t.idx"), context: s("") }
    );
    assert_eq!(plan[1], Effect::RemoveFile { path: s("database/base/db/t.idx.meta") });
    assert_eq!(
        execute_drop_index(&catalog(), "db", "other", "t", false, &p),
        missing("Index 'other' not found on table 't'")
    );
    p.legacy_meta = LegacyMeta::Invalid;
    assert_eq!(
        execute_drop_index(&catalog(), "db", "idx_t_c", "t", false, &p),
        missing("Index file found but metadata invalid for 'idx_t_c'")
    );
    assert_eq!(
        execute_drop_index(&catalog(), "db", "i", "t", false, &probe()),
        missing("Index file not found for table 't'")
    );
}

#[test]
fn an_index_is_looked_for_in_every_file() {
    let file = |name: &str, meta| IndexFile { name: s(name), meta };
    let mut p = probe();
    p.files = vec![
        file("a.dat", LegacyMeta::Unreadable),
        file("a.x.idx", LegacyMeta::Unreadable),
        file("b.idx", LegacyMeta::Column(s("c"))),
        file("s.t.I.idx", LegacyMeta::Unreadable),
        file("u.i.idx", LegacyMeta::Unreadable),
    ];
    let plan = execute_drop_index(&catalog(), "db", "i", "", false, &p).unwrap();
    assert_eq!(
        plan,
        vec![
            Effect::RemoveFileOrFail { path: s("database/base/db/s.t.I.idx"), context: s("") },
            Effect::RemoveFile { path: s("database/base/db/s.t.I.idx.meta") },
            Effect::DeleteIndexMetadata {
                db: s("db"),
                table: s("s.t"),
                index: s("i"),
                warning: s("[DropIndex] Warning: failed to clean up sys_indexes: "),
            },
            Effect::Print { text: s("Dropped index 'i' from table 's.t'.") },
        ]
    );
    let plan = execute_drop_index(&catalog(), "db", "idx_b_C", "", false, &p).unwrap();
    assert_eq!(
        plan[0],
        Effect::RemoveFileOrFail { path: s("database/base/db/b.idx"), context: s("") }
    );
    assert_eq!(plan[1], Effect::RemoveFile { path: s("database/base/db/b.idx.meta") });
}

#[test]
fn an_index_goes_with_its_metadata_whatever_its_name() {
    let mut p = probe();
    p.files = vec![
        IndexFile { name: s("t1.idx_t1_name.idx"), meta: LegacyMeta::Unreadable },
        IndexFile { name: s("t1.idx_t1_name.idx.meta"), meta: LegacyMeta::Unreadable },
    ];
    let plan = execute_drop_index(&catalog(), "db", "idx_t1_name", "", false, &p).unwrap();
    assert_eq!(
        plan[0],
        Effect::RemoveFileOrFail { path: s("database/base/db/t1.idx_t1_name.idx"), context: s("") }
    );
    assert_eq!(
        plan[1],
        Effect::RemoveFile { path: s("database/base/db/t1.idx_t1_name.idx.meta") }
    );
    assert_eq!(plan[3], Effect::Print { text: s("Dropped index 'idx_t1_name' from table 't1'.") });
    p.named_exists = true;
    let plan = execute_drop_index(&catalog(), "db", "idx_t1_name", "t1", false, &p).unwrap();
    assert_eq!(
        plan[1],
        Effect::RemoveFile { path: s("database/base/db/t1.idx_t1_name.idx.meta") }
    );
}

#[test]
fn missing_indexes_are_refused_or_skipped() {
    let skip = Ok(vec![Effect::Print {
        text: s("Index 'i' does not exist (IF EXISTS specified, skipping)."),
    }]);
    assert_eq!(execute_drop_index(&catalog(), "db", "i", "t", true, &probe()), skip);
    assert_eq!(execute_drop_index(&catalog(), "db", "i", "", true, &probe()), skip);
    assert_eq!(
        execute_drop_index(&catalog(), "db", "i", "", false, &probe()),
        missing("Index 'i' not found in database 'db'")
    );
    assert_eq!(
        execute_drop_index(&catalog(), "x", "i", "", true, &probe()),
        missing("Database 'x' not found")
    );
    let mut p = probe();
    p.base_exists = false;
    assert_eq!(
        execute_drop_index(&catalog(), "db", "i", "", true, &p),
        missing("Database directory 'database/base/db' not found")
    );
}

#[test]
fn texts() {
    assert_eq!(trimmed(" \t\u{2003}a b\u{a0}\n"), "a b");
    assert_eq!(trimmed_start("  a "), "a ");
    assert!(same_ignoring_case("Straße", "sTRAßE"));
    assert!(!same_ignoring_case("É", "é"));
    assert_eq!(to_ascii_upper("aé"), "Aé");
    assert_eq!(first_word("two words"), "two");
    assert_eq!(first_word(" two"), "");
    assert_eq!(strip_prefixes("((a", "("), "a");
    assert_eq!(rfind_char("a.b.c", '.'), Some(3));
    assert_eq!(join(&vec![s("a"), s("b")], ", "), "a, b");
    assert_eq!(decimal_text(0), "0");
    assert_eq!(decimal_text(u128::MAX), "340282366920938463463374607431768211455");
    assert_eq!(signed_decimal_text(i64::MIN), "-9223372036854775808");
    assert_eq!(zero_pad("7", 3), "007");
    assert_eq!(zero_pad("1234", 3), "1234");
    assert_eq!(byte_offset("aé€x", 3), 6);
    assert_eq!(char_at_byte("aé€x", 6), Some(3));
    assert_eq!(char_at_byte("aé€x", 2), None);
}
