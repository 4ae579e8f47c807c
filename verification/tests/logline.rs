use rookdb::logline::{find_str, format_record, LogLevel};

fn info(msg: &str) -> Option<String> {
    format_record(msg, LogLevel::Info)
}

#[test]
fn housekeeping_is_not_shown() {
    for msg in [
        "[BTree::open] x",
        "[init_table] x",
        "[SystemCatalog] x",
        "Created catalog directory: a",
        "Saving catalog to: a",
        "Loading catalog from: a",
        "Initializing catalog at: a",
        "New table initialized",
        "Table data file created at 'x'.",
        "Table 't' initialized successfully.",
        "Table 't' created and saved to catalog.",
        "Starting single tuple insertion",
        "Successfully inserted at 1",
        "[Volcano] Plan: Scan",
        "[Volcano] Executing logical plan",
        "[Volcano] Using index-accelerated scan on t",
        "[Update] Marked old slot 3",
    ] {
        assert_eq!(info(msg), None, "{}", msg);
        assert_eq!(format_record(msg, LogLevel::Error), None, "{}", msg);
    }
}

#[test]
fn decisions_are_tagged() {
    let cases = [
        ("[Volcano] Using HashJoin on id", "  \x1b[1;35m[JOIN]\x1b[0m       Using HashJoin on id"),
        ("[Volcano] Using IndexNestedLoopJoin", "  \x1b[1;35m[JOIN]\x1b[0m       Using IndexNestedLoopJoin"),
        ("[Volcano] Index-accelerated scan: t", "  \x1b[1;32m[INDEX SCAN]\x1b[0m Index-accelerated scan: t"),
        ("[Volcano] Sort has limit 3", "  \x1b[1;33m[OPTIMIZE]\x1b[0m   Sort has limit 3"),
        ("[Volcano] Built physical operator tree", "  \x1b[1;34m[PIPELINE]\x1b[0m   Built physical operator tree"),
        ("[Volcano] Planning x", "  \x1b[1;34m[PLANNER]\x1b[0m    Planning x"),
        ("[Volcano] [Volcano] x", "  \x1b[1;34m[PLANNER]\x1b[0m    x"),
        ("[Insert] ok", "  \x1b[1;33m[DML:INSERT]\x1b[0m ok"),
        ("[Update] ok", "  \x1b[1;33m[DML:UPDATE]\x1b[0m ok"),
        ("[Delete] ok", "  \x1b[1;33m[DML:DELETE]\x1b[0m ok"),
        ("[CreateIndex] ok", "  \x1b[1;32m[INDEX]\x1b[0m      ok"),
    ];
    for (msg, line) in cases {
        assert_eq!(info(msg), Some(line.to_string()));
    }
}

#[test]
fn scans_name_their_table() {
    assert_eq!(
        info("[Volcano] No index file found for table 'emp', scanning"),
        Some("  \x1b[1;36m[SCAN]\x1b[0m       Table 'emp' has no index, using SeqScan".to_string())
    );
    assert_eq!(
        info("[Volcano] No index file found for table emp"),
        Some("  \x1b[1;36m[SCAN]\x1b[0m       Table 'table' has no index, using SeqScan".to_string())
    );
    assert_eq!(
        info("[Volcano] Named index emp.emp_dept_idx used"),
        Some("  \x1b[1;32m[INDEX SCAN]\x1b[0m Table 'emp' scanned via index 'emp_dept_idx' (FullScan)".to_string())
    );
    assert_eq!(
        info("[Volcano] Named index t.i used"),
        Some("  \x1b[1;32m[INDEX SCAN]\x1b[0m Table 'table' scanned via index 'emp_dept_idx' (FullScan)".to_string())
    );
}

#[test]
fn changed_rows_are_named_by_place() {
    assert_eq!(
        info("[Update] Validated row at page 1 slot 2: ok"),
        Some("  \x1b[1;33m[DML:UPDATE]\x1b[0m Row at page 1 slot 2 validated & updated (appended new version, old marked deleted)".to_string())
    );
    assert_eq!(
        info("[Delete] Soft-deleted slot 7 on page 1, updated index"),
        Some("  \x1b[1;33m[DML:DELETE]\x1b[0m Soft-deleted row at 7 on page 1, updated index and visibility map".to_string())
    );
    assert_eq!(
        info("[Delete] Soft-deleted slots"),
        Some("  \x1b[1;33m[DML:DELETE]\x1b[0m Soft-deleted row at , updated index and visibility map".to_string())
    );
}

#[test]
fn other_records_go_by_level() {
    assert_eq!(format_record("x", LogLevel::Warn), Some("  \x1b[1;33m[WARN]\x1b[0m       x".to_string()));
    assert_eq!(format_record("x", LogLevel::Error), Some("  \x1b[1;31m[ERROR]\x1b[0m      x".to_string()));
    assert_eq!(info("x"), Some("  │ x".to_string()));
}

#[test]
fn texts_are_found_by_character() {
    assert_eq!(find_str("äslot 1", "slot "), Some(1));
    assert_eq!(find_str("slo", "slot "), None);
    assert_eq!(find_str("abc", ""), Some(0));
}
