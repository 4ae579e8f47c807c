use rookdb::bench::{
    after_load, count_of, half_range, join_result_line, orders_columns, orders_row, parse_args,
    parse_number, point_select_sql, raise, raw_pack, result_line, sample_count, staff_columns,
    staff_insert_sql, staff_row, vacuum_result_line, BenchCommand, CountCell, Lcg, Load, LoadStep,
    Phase, Sampling,
};
use rookdb::copy::InsertOutcome;
use rookdb::datatype::ColumnType;
use rookdb::dml::{continue_update, set_clause_text, FoundRows, UpdateStep};

fn args(list: &[&str]) -> Vec<String> {
    list.iter().map(|s| s.to_string()).collect()
}

#[test]
fn the_generator_steps_as_a_congruential_one() {
    let mut rng = Lcg(1);
    let state = 6364136223846793005u64.wrapping_add(1442695040888963407);
    assert_eq!(rng.next(), state >> 16);
    assert_eq!(rng, Lcg(state));
    let mut other = Lcg(u64::MAX);
    let state = u64::MAX.wrapping_mul(6364136223846793005).wrapping_add(1442695040888963407);
    assert_eq!(other.below(1000), (state >> 16) % 1000);
    assert_eq!(Lcg(5).below(0), 0);
    assert_eq!(Lcg(5).below(1), 0);
}

#[test]
fn staff_rows() {
    assert_eq!(staff_row(0), vec!["0", "user_000000", "0"]);
    assert_eq!(staff_row(1_234_567), vec!["1234567", "user_234567", "34567"]);
    assert_eq!(staff_insert_sql(42), "INSERT INTO staff VALUES (42, 'user_000042', 42)");
    assert_eq!(orders_row(7, 3), vec!["7", "1", "7"]);
    assert_eq!(orders_row(1_003, 500), vec!["1003", "3", "3"]);
}

#[test]
fn raw_rows_are_packed_in_place() {
    let b = raw_pack(0x1_0000_0002);
    assert_eq!(b.len(), 32);
    assert_eq!(&b[0..4], &2u32.to_le_bytes());
    assert_eq!(&b[4..15], b"u0294967298");
    assert_eq!(b[15], 0);
    assert_eq!(&b[16..24], &0x1_0000_0002u64.to_le_bytes());
    assert_eq!(&b[24..32], &0x1_0000_0002u64.wrapping_mul(0x9E37_79B9).to_le_bytes());
    assert_eq!(&raw_pack(7)[4..15], b"u0000000007");
}

#[test]
fn results_report_a_rate() {
    assert_eq!(
        result_line("raw_heap_insert", 1000, 250, "file_bytes=8"),
        "[RESULT] phase=raw_heap_insert n=1000 elapsed_ms=250 rows_per_sec=4000 file_bytes=8"
    );
    assert_eq!(result_line("x", 5, 0, ""), "[RESULT] phase=x n=5 elapsed_ms=0 rows_per_sec=0 ");
    assert_eq!(
        join_result_line(4, 9, u64::MAX),
        "[RESULT] phase=hash_join_count matched=4 elapsed_ms=9 side_a=18446744073709551615 side_b=36893488147419103230"
    );
    assert_eq!(
        vacuum_result_line(1, 2, 3, 4),
        "[RESULT] phase=vacuum pages_compacted=1 dead_reclaimed=2 indexes_rebuilt=3 elapsed_ms=4"
    );
}

#[test]
fn counts() {
    assert_eq!(count_of(&CountCell::Missing), Ok(0));
    assert_eq!(count_of(&CountCell::Int(12)), Ok(12));
    assert_eq!(count_of(&CountCell::Int(-1)), Ok(u64::MAX));
    assert_eq!(count_of(&CountCell::BigInt(i64::MIN)), Ok(1 << 63));
    assert_eq!(
        count_of(&CountCell::Other("Bool(true)".to_string())),
        Err("unexpected count type Bool(true)".to_string())
    );
}

#[test]
fn numbers_are_read_as_the_standard_library_reads_them() {
    for text in ["0", "007", "+12", "18446744073709551615", "18446744073709551616", "", "+", "-1", "1x", " 1", "++1", "99999999999999999999999"] {
        assert_eq!(parse_number(text), text.parse::<u64>().ok(), "{}", text);
    }
}

#[test]
fn arguments() {
    assert_eq!(parse_args(&args(&["b", "raw"])), BenchCommand::Usage);
    assert_eq!(parse_args(&args(&["b", "nope", "x"])), BenchCommand::BadSize);
    assert_eq!(parse_args(&args(&["b", "nope", "1"])), BenchCommand::UnknownPhase("nope".to_string()));
    assert_eq!(parse_args(&args(&["b", "raw", "5"])), BenchCommand::Run { phase: Phase::Raw, n: 5 });
    assert_eq!(parse_args(&args(&["b", "engine", "5"])), BenchCommand::Run { phase: Phase::Engine(false), n: 5 });
    assert_eq!(parse_args(&args(&["b", "engine", "5", "idx"])), BenchCommand::Run { phase: Phase::Engine(true), n: 5 });
    assert_eq!(parse_args(&args(&["b", "engine", "5", "no"])), BenchCommand::Run { phase: Phase::Engine(false), n: 5 });
    assert_eq!(parse_args(&args(&["b", "sql", "5"])), BenchCommand::Run { phase: Phase::Sql, n: 5 });
    assert_eq!(parse_args(&args(&["b", "join", "5"])), BenchCommand::Run { phase: Phase::Join, n: 5 });
    assert_eq!(parse_args(&args(&["b", "mutate", "5"])), BenchCommand::Run { phase: Phase::Mutate, n: 5 });
}

#[test]
fn loads_report_progress_and_stop_on_faults() {
    let ok = InsertOutcome::Inserted;
    assert_eq!(after_load(Load::Raw, 0, 9, &ok), LoadStep::Next(None));
    assert_eq!(
        after_load(Load::Raw, 2_000_000, 9, &ok),
        LoadStep::Next(Some("  ...raw insert 2000000/9".to_string()))
    );
    assert_eq!(
        after_load(Load::Typed(true), 500_000, 600_000, &ok),
        LoadStep::Next(Some("  ...typed insert 500000/600000 (indexed=true)".to_string()))
    );
    assert_eq!(
        after_load(Load::Pipeline, 50_000, 60_000, &ok),
        LoadStep::Next(Some("  ...pipeline insert 50000/60000".to_string()))
    );
    assert_eq!(
        after_load(Load::Mutate, 1_000_000, 2, &ok),
        LoadStep::Next(Some("  ...mutate setup 1000000/2".to_string()))
    );
    assert_eq!(after_load(Load::Orders, 500_000, 2, &ok), LoadStep::Next(None));
    assert_eq!(
        after_load(Load::Typed(false), 3, 9, &InsertOutcome::Rejected),
        LoadStep::Stop("[ERROR] typed insert 3 rejected".to_string())
    );
    assert_eq!(
        after_load(Load::Raw, 3, 9, &InsertOutcome::Failed("full".to_string())),
        LoadStep::Stop("[ERROR] raw insert 3: full".to_string())
    );
    assert_eq!(
        after_load(Load::Pipeline, 3, 9, &InsertOutcome::Failed("Ok(0)".to_string())),
        LoadStep::Stop("[ERROR] pipeline insert 3 -> Ok(0)".to_string())
    );
    assert_eq!(
        after_load(Load::Staff, 3, 9, &InsertOutcome::Failed("full".to_string())),
        LoadStep::Stop("[ERROR] staff insert 3 rejected".to_string())
    );
    assert_eq!(
        after_load(Load::Mutate, 3, 9, &InsertOutcome::Rejected),
        LoadStep::Stop("[ERROR] setup insert 3 rejected".to_string())
    );
}

#[test]
fn statements_and_schemas() {
    assert_eq!(point_select_sql(17), "SELECT id, name FROM staff WHERE id = 17");
    assert_eq!(half_range(5), "id >= 0 AND id < 2");
    let staff = staff_columns();
    assert_eq!(staff.len(), 3);
    assert_eq!(staff[1].name, "name");
    assert_eq!(staff[1].data_type, ColumnType::Varchar(24));
    assert!(staff[1].nullable);
    let orders = orders_columns();
    assert_eq!(orders[1].name, "staff_id");
    assert_eq!(orders[2].data_type, ColumnType::Int);
}

#[test]
fn samples_are_limited() {
    assert_eq!(sample_count(Sampling::RawGet, 0), 0);
    assert_eq!(sample_count(Sampling::RawGet, 9_999), 9_999);
    assert_eq!(sample_count(Sampling::RawGet, 50_000), 10_000);
    assert_eq!(sample_count(Sampling::PointSelect, 999), 999);
    assert_eq!(sample_count(Sampling::PointSelect, 50_000), 1_000);
}

#[test]
fn the_range_update_raises_salaries() {
    assert_eq!(set_clause_text(&raise()), "salary = salary + 1");
    let found = FoundRows::Rows(vec![(Some(1), Some(2))]);
    match continue_update(&found, &raise()) {
        UpdateStep::Apply { pointers, assignments } => {
            assert_eq!(pointers, vec![(1, 2)]);
            assert_eq!(assignments.len(), 1);
        }
        UpdateStep::Report(line) => panic!("{}", line),
    }
}
