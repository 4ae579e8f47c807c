//! The stress benchmark: its generator, its rows and its result lines.

use vstd::prelude::*;
use crate::ast::{ArithOp, ConstantValue, ExprNode};
use crate::catalog;
use crate::catalog::Column;
use crate::copy::InsertOutcome;
use crate::datatype::ColumnType;
use crate::dml;
use crate::dml::Assignment;
use crate::render;
use crate::text;

verus! {

/// A linear congruential generator over 64 bits.
#[derive(Debug, PartialEq)]
pub struct Lcg(pub u64);

pub const LCG_FACTOR: u64 = 6364136223846793005;

pub const LCG_STEP: u64 = 1442695040888963407;

/// The state that follows a state.
pub open spec fn lcg_next(state: u64) -> int {
    (state * LCG_FACTOR + LCG_STEP) % 0x1_0000_0000_0000_0000
}

impl Lcg {
    /// Steps the generator. The number drawn is the new state without its low 16 bits.
    pub fn next(&mut self) -> (r: u64)
        ensures
            final(self).0 == lcg_next(old(self).0),
            r == lcg_next(old(self).0) / 0x1_0000,
    {
        let ghost was = self.0;
        let product: u64 = self.0.wrapping_mul(LCG_FACTOR);
        let next: u64 = product.wrapping_add(LCG_STEP);
        proof {
            let m = 0x1_0000_0000_0000_0000int;
            vstd::arithmetic::div_mod::lemma_add_mod_noop(
                was * LCG_FACTOR,
                LCG_STEP as int,
                m,
            );
            vstd::arithmetic::div_mod::lemma_small_mod(LCG_STEP as nat, m as nat);
        }
        self.0 = next;
        assert(next >> 16 == next / 0x1_0000) by (bit_vector);
        next >> 16
    }

    /// Draws a number below `n`; `0` where `n` is `0`.
    pub fn below(&mut self, n: u64) -> (r: u64)
        ensures
            final(self).0 == lcg_next(old(self).0),
            r == (lcg_next(old(self).0) / 0x1_0000) % (if n > 0 {
                n as int
            } else {
                1
            }),
            n > 0 ==> r < n,
    {
        let bound: u64 = if n > 0 {
            n
        } else {
            1
        };
        self.next() % bound
    }
}

/// Rows per second; `0` where no time was measured.
pub open spec fn rate(n: int, ms: int) -> int {
    if ms > 0 {
        n * 1000 / ms
    } else {
        0
    }
}

/// The line that reports a phase.
pub fn result_line(name: &str, n: u64, ms: u128, extra: &str) -> (r: String)
    ensures
        r@ == "[RESULT] phase="@ + name@ + " n="@ + text::decimal(n as nat) + " elapsed_ms="@
            + text::decimal(ms as nat) + " rows_per_sec="@ + text::decimal(
            rate(n as int, ms as int) as nat,
        ) + (" "@ + extra@),
{
    let rows: u128 = n as u128;
    let rps: u128 = if ms > 0 {
        rows * 1000 / ms
    } else {
        0
    };
    assert(rate(n as int, ms as int) >= 0) by {
        if ms > 0 {
            vstd::arithmetic::div_mod::lemma_div_pos_is_pos(n * 1000, ms as int);
        }
    }
    let a = text::decimal_text(rows);
    let b = text::decimal_text(ms);
    let c = text::decimal_text(rps);
    let head = text::cat8(
        "[RESULT] phase=",
        name,
        " n=",
        a.as_str(),
        " elapsed_ms=",
        b.as_str(),
        " rows_per_sec=",
        c.as_str(),
    );
    let tail = text::cat2(" ", extra);
    text::cat2(head.as_str(), tail.as_str())
}

/// The literals of the `i`-th row of `staff`: id, name and salary.
pub open spec fn staff_literals(i: nat) -> Seq<Seq<char>> {
    seq![
        text::decimal(i),
        "user_"@ + text::zero_padded(text::decimal(i % 1_000_000), 6),
        text::decimal(i % 100_000),
    ]
}

pub fn staff_row(i: u64) -> (r: Vec<String>)
    ensures
        text::views(r@) == staff_literals(i as nat),
{
    let id = text::decimal_text(i as u128);
    let number = text::decimal_text((i % 1_000_000) as u128);
    let padded = text::zero_pad(number.as_str(), 6);
    let salary = text::decimal_text((i % 100_000) as u128);
    let mut out: Vec<String> = Vec::new();
    out.push(id);
    out.push(text::cat2("user_", padded.as_str()));
    out.push(salary);
    assert(text::views(out@) =~= staff_literals(i as nat));
    out
}

/// The literals of the `i`-th row of `orders`, where `staff` has `m` rows.
pub fn orders_row(i: u64, m: u64) -> (r: Vec<String>)
    requires
        m > 0,
    ensures
        text::views(r@) == seq![
            text::decimal(i as nat),
            text::decimal(i as nat % m as nat),
            text::decimal(i as nat % 500),
        ],
{
    let mut out: Vec<String> = Vec::new();
    out.push(text::decimal_text(i as u128));
    out.push(text::decimal_text((i % m) as u128));
    out.push(text::decimal_text((i % 500) as u128));
    assert(text::views(out@) =~= seq![
        text::decimal(i as nat),
        text::decimal(i as nat % m as nat),
        text::decimal(i as nat % 500),
    ]);
    out
}

/// The `k` low bytes of `n`, the lowest first.
pub open spec fn le_bytes(n: nat, k: nat) -> Seq<u8>
    decreases k,
{
    if k == 0 {
        Seq::empty()
    } else {
        seq![(n % 256) as u8] + le_bytes(n / 256, (k - 1) as nat)
    }
}

/// The name field of the `i`-th raw row, eleven characters.
pub open spec fn raw_name(i: nat) -> Seq<char> {
    "u"@ + text::zero_padded(text::decimal(i % 1_000_000_000), 10)
}

/// The bytes of the `i`-th raw row: id, name, a pad byte, the number and its hash.
pub open spec fn raw_row(i: u64) -> Seq<u8> {
    le_bytes(i as nat, 4) + Seq::new(11, |j: int| raw_name(i as nat)[j] as u8) + seq![0u8] + le_bytes(
        i as nat,
        8,
    ) + le_bytes((i as nat * 0x9E37_79B9) % 0x1_0000_0000_0000_0000, 8)
}

/// A number below `10^k` has at most `k` digits.
proof fn lemma_decimal_len(n: nat, k: nat)
    requires
        k > 0,
        n < vstd::arithmetic::power::pow(10, k),
    ensures
        1 <= text::decimal(n).len() <= k,
    decreases k,
{
    if n >= 10 {
        if k == 1 {
            vstd::arithmetic::power::lemma_pow1(10);
            assert(false);
        }
        vstd::arithmetic::power::lemma_pow_adds(10, 1, (k - 1) as nat);
        vstd::arithmetic::power::lemma_pow1(10);
        let p = vstd::arithmetic::power::pow(10, (k - 1) as nat);
        assert(n / 10 < p);
        lemma_decimal_len(n / 10, (k - 1) as nat);
    }
}

fn push_le(out: &mut Vec<u8>, n: u64, k: u8)
    requires
        k <= 8,
    ensures
        final(out)@ == old(out)@ + le_bytes(n as nat, k as nat),
    decreases k,
{
    if k == 0 {
        assert(out@ + Seq::<u8>::empty() =~= out@);
    } else {
        let low: u8 = (n % 256) as u8;
        out.push(low);
        push_le(out, n / 256, k - 1);
        assert(out@ =~= old(out)@ + le_bytes(n as nat, k as nat));
    }
}

/// The bytes of the `i`-th raw row.
pub fn raw_pack(i: u64) -> (r: Vec<u8>)
    ensures
        r@ == raw_row(i),
        r@.len() == 32,
{
    let digits = text::decimal_text((i % 1_000_000_000) as u128);
    let padded = text::zero_pad(digits.as_str(), 10);
    let name = text::cat2("u", padded.as_str());
    let v = text::chars_of(name.as_str());
    proof {
        assert(vstd::arithmetic::power::pow(10, 9) == 1_000_000_000) by {
            reveal(vstd::arithmetic::power::pow);
            reveal_with_fuel(vstd::arithmetic::power::pow, 10);
        }
        lemma_decimal_len((i % 1_000_000_000) as nat, 9);
        reveal_strlit("u");
    }
    assert(v@.len() == 11);
    let mut out: Vec<u8> = Vec::new();
    push_le(&mut out, i, 4);
    let ghost id = out@;
    assert(id =~= le_bytes(i as nat, 4));
    let ghost bytes = Seq::new(11, |j: int| raw_name(i as nat)[j] as u8);
    let mut j: usize = 0;
    while j < v.len()
        invariant
            j <= v.len(),
            v@.len() == 11,
            v@ == raw_name(i as nat),
            bytes == Seq::new(11, |j: int| raw_name(i as nat)[j] as u8),
            out@ == id + bytes.take(j as int),
        decreases v.len() - j,
    {
        let b: u8 = v[j] as u8;
        out.push(b);
        assert(bytes.take(j + 1) =~= bytes.take(j as int).push(b));
        j = j + 1;
    }
    assert(bytes.take(j as int) =~= bytes);
    out.push(0);
    push_le(&mut out, i, 8);
    let hash: u64 = i.wrapping_mul(0x9E37_79B9);
    push_le(&mut out, hash, 8);
    assert(out@ =~= raw_row(i));
    proof {
        lemma_le_len(i as nat, 4);
        lemma_le_len(i as nat, 8);
        lemma_le_len((i as nat * 0x9E37_79B9) % 0x1_0000_0000_0000_0000, 8);
    }
    out
}

proof fn lemma_le_len(n: nat, k: nat)
    ensures
        le_bytes(n, k).len() == k,
    decreases k,
{
    if k > 0 {
        lemma_le_len(n / 256, (k - 1) as nat);
    }
}

/// The first cell of a counting query's first row.
#[derive(Debug, PartialEq)]
pub enum CountCell {
    /// There is no such cell, or it is `NULL`.
    Missing,
    Int(i32),
    BigInt(i64),
    /// A value of another type, as text.
    Other(String),
}

/// A signed number as the unsigned number of the same 64 bits.
pub open spec fn wrapped(v: int) -> int {
    if v < 0 {
        v + 0x1_0000_0000_0000_0000
    } else {
        v
    }
}

/// The count that a counting query gave.
pub fn count_of(cell: &CountCell) -> (r: Result<u64, String>)
    ensures
        match *cell {
            CountCell::Missing => r == Ok::<u64, String>(0),
            CountCell::Int(v) => r is Ok && r->Ok_0 == wrapped(v as int),
            CountCell::BigInt(v) => r is Ok && r->Ok_0 == wrapped(v as int),
            CountCell::Other(t) => r is Err && r->Err_0@ == "unexpected count type "@ + t@,
        },
{
    match cell {
        CountCell::Missing => Ok(0),
        CountCell::Int(v) => Ok(wrap(*v as i64)),
        CountCell::BigInt(v) => Ok(wrap(*v)),
        CountCell::Other(t) => Err(text::cat2("unexpected count type ", t.as_str())),
    }
}

fn wrap(v: i64) -> (r: u64)
    ensures
        r == wrapped(v as int),
{
    if v < 0 {
        (v as i128 + 0x1_0000_0000_0000_0000) as u64
    } else {
        v as u64
    }
}

/// The statement that inserts the `i`-th row of `staff`.
pub fn staff_insert_sql(i: u64) -> (r: String)
    ensures
        r@ == "INSERT INTO staff VALUES ("@ + staff_literals(i as nat)[0] + ", '"@
            + staff_literals(i as nat)[1] + "', "@ + staff_literals(i as nat)[2] + ")"@,
{
    let row = staff_row(i);
    assert(row@.len() == text::views(row@).len());
    assert(text::views(row@)[0] == row@[0]@);
    assert(text::views(row@)[1] == row@[1]@);
    assert(text::views(row@)[2] == row@[2]@);
    text::cat7(
        "INSERT INTO staff VALUES (",
        row[0].as_str(),
        ", '",
        row[1].as_str(),
        "', ",
        row[2].as_str(),
        ")",
    )
}

#[derive(Debug, Clone, Copy, PartialEq, Eq, Structural)]
pub enum Phase {
    Raw,
    /// With or without an index.
    Engine(bool),
    Sql,
    Join,
    Mutate,
}

/// What the arguments of the benchmark ask for.
#[derive(Debug, PartialEq)]
pub enum BenchCommand {
    /// Too few arguments.
    Usage,
    /// The size is no number.
    BadSize,
    UnknownPhase(String),
    Run { phase: Phase, n: u64 },
}

/// The number that decimal digits stand for; none where there are none, or anything else.
pub open spec fn digits_value(s: Seq<char>) -> Option<nat>
    decreases s.len(),
{
    if s.len() == 0 || !('0' <= s.last() <= '9') {
        None
    } else {
        let d = (s.last() as nat - 48) as nat;
        if s.len() == 1 {
            Some(d)
        } else {
            match digits_value(s.drop_last()) {
                Some(n) => Some(10 * n + d),
                None => None,
            }
        }
    }
}

/// The unsigned 64-bit number that a text stands for: digits, behind an optional `+`.
pub open spec fn number(s: Seq<char>) -> Option<nat> {
    let digits = if "+"@.is_prefix_of(s) {
        s.skip(1)
    } else {
        s
    };
    match digits_value(digits) {
        Some(n) => if n <= u64::MAX {
            Some(n)
        } else {
            None
        },
        None => None,
    }
}

/// A prefix that is no number, or too large, keeps the whole from being one.
proof fn lemma_digits(s: Seq<char>, i: int)
    requires
        0 < i <= s.len(),
        digits_value(s) is Some,
    ensures
        digits_value(s.take(i)) is Some,
        digits_value(s.take(i))->0 <= digits_value(s)->0,
    decreases s.len(),
{
    if i == s.len() {
        assert(s.take(i) =~= s);
    } else {
        assert(s.drop_last().take(i) =~= s.take(i));
        lemma_digits(s.drop_last(), i);
    }
}

/// The value of a decimal digit.
fn digit(c: char) -> (r: Option<u64>)
    ensures
        match r {
            Some(d) => '0' <= c <= '9' && d == c as nat - 48,
            None => !('0' <= c <= '9'),
        },
{
    let n: u32 = c as u32;
    if 48 <= n && n <= 57 {
        Some((n - 48) as u64)
    } else {
        None
    }
}

/// The unsigned 64-bit number that a text stands for.
pub fn parse_number(s: &str) -> (r: Option<u64>)
    ensures
        match r {
            Some(n) => number(s@) == Some(n as nat),
            None => number(s@) is None,
        },
{
    proof {
        reveal_strlit("+");
    }
    let digits = match text::strip_prefix(s, "+") {
        Some(rest) => rest,
        None => s,
    };
    let v = text::chars_of(digits);
    if v.len() == 0 {
        return None;
    }
    let mut value: u64 = 0;
    let mut i: usize = 0;
    while i < v.len()
        invariant
            i <= v.len(),
            v@.len() > 0,
            v@ == digits@,
            number(s@) == match digits_value(digits@) {
                Some(n) => if n <= u64::MAX {
                    Some(n)
                } else {
                    None
                },
                None => None,
            },
            i > 0 ==> digits_value(digits@.take(i as int)) == Some(value as nat),
            i == 0 ==> value == 0,
        decreases v.len() - i,
    {
        proof {
            assert(digits@.take(i + 1).drop_last() =~= digits@.take(i as int));
            assert(digits@.take(i + 1).last() == v@[i as int]);
            if digits_value(digits@) is Some {
                lemma_digits(digits@, i + 1);
            }
        }
        let d: u64 = match digit(v[i]) {
            Some(d) => d,
            None => {
                return None;
            },
        };
        if value > (u64::MAX - d) / 10 {
            assert(10 * value + d > u64::MAX);
            return None;
        }
        proof {
            let t = digits@.take(i + 1);
            assert('0' <= t.last() <= '9');
            assert((t.last() as nat - 48) as nat == d);
            assert(t.len() == i + 1);
            if i > 0 {
                assert(digits_value(t.drop_last()) == Some(value as nat));
            }
            assert(digits_value(t) == Some((10 * value + d) as nat));
        }
        value = 10 * value + d;
        i = i + 1;
    }
    assert(digits@.take(i as int) =~= digits@);
    Some(value)
}

/// The phase that a name stands for. The engine phase has an index where the next argument
/// is `idx`.
pub open spec fn named_phase(name: Seq<char>, index: bool) -> Option<Phase> {
    if name == "raw"@ {
        Some(Phase::Raw)
    } else if name == "engine"@ {
        Some(Phase::Engine(index))
    } else if name == "sql"@ {
        Some(Phase::Sql)
    } else if name == "join"@ {
        Some(Phase::Join)
    } else if name == "mutate"@ {
        Some(Phase::Mutate)
    } else {
        None
    }
}

/// What the arguments ask for: the program's name, the phase, the size, and perhaps `idx`.
pub open spec fn asks_for(r: BenchCommand, args: Seq<Seq<char>>) -> bool {
    if args.len() < 3 {
        r is Usage
    } else {
        match number(args[2]) {
            None => r is BadSize,
            Some(size) => match named_phase(args[1], args.len() > 3 && args[3] == "idx"@) {
                None => r matches BenchCommand::UnknownPhase(name) && name@ == args[1],
                Some(p) => r matches BenchCommand::Run { phase, n } && phase == p && n == size,
            },
        }
    }
}

/// Reads the arguments of the benchmark.
pub fn parse_args(args: &Vec<String>) -> (r: BenchCommand)
    ensures
        asks_for(r, text::views(args@)),
{
    let ghost all = text::views(args@);
    assert(all.len() == args@.len());
    if args.len() < 3 {
        return BenchCommand::Usage;
    }
    assert(all[1] == args@[1]@ && all[2] == args@[2]@);
    let n: u64 = match parse_number(args[2].as_str()) {
        Some(n) => n,
        None => {
            return BenchCommand::BadSize;
        },
    };
    let index = args.len() > 3 && text::same_text(args[3].as_str(), "idx");
    assert(args@.len() > 3 ==> all[3] == args@[3]@);
    let name = args[1].as_str();
    let phase = if text::same_text(name, "raw") {
        Phase::Raw
    } else if text::same_text(name, "engine") {
        Phase::Engine(index)
    } else if text::same_text(name, "sql") {
        Phase::Sql
    } else if text::same_text(name, "join") {
        Phase::Join
    } else if text::same_text(name, "mutate") {
        Phase::Mutate
    } else {
        return BenchCommand::UnknownPhase(name.to_owned());
    };
    BenchCommand::Run { phase, n }
}

/// The columns of `staff`.
pub fn staff_columns() -> (r: Vec<Column>)
    ensures
        catalog::column_views(r@) == seq![
            catalog::plain_column("id"@, ColumnType::Int),
            catalog::plain_column("name"@, ColumnType::Varchar(24)),
            catalog::plain_column("salary"@, ColumnType::Int),
        ],
{
    let mut out: Vec<Column> = Vec::new();
    out.push(Column::new("id".to_owned(), ColumnType::Int));
    out.push(Column::new("name".to_owned(), ColumnType::Varchar(24)));
    out.push(Column::new("salary".to_owned(), ColumnType::Int));
    assert(catalog::column_views(out@) =~= seq![
        catalog::plain_column("id"@, ColumnType::Int),
        catalog::plain_column("name"@, ColumnType::Varchar(24)),
        catalog::plain_column("salary"@, ColumnType::Int),
    ]);
    out
}

/// The columns of `orders`.
pub fn orders_columns() -> (r: Vec<Column>)
    ensures
        catalog::column_views(r@) == seq![
            catalog::plain_column("id"@, ColumnType::Int),
            catalog::plain_column("staff_id"@, ColumnType::Int),
            catalog::plain_column("amount"@, ColumnType::Int),
        ],
{
    let mut out: Vec<Column> = Vec::new();
    out.push(Column::new("id".to_owned(), ColumnType::Int));
    out.push(Column::new("staff_id".to_owned(), ColumnType::Int));
    out.push(Column::new("amount".to_owned(), ColumnType::Int));
    assert(catalog::column_views(out@) =~= seq![
        catalog::plain_column("id"@, ColumnType::Int),
        catalog::plain_column("staff_id"@, ColumnType::Int),
        catalog::plain_column("amount"@, ColumnType::Int),
    ]);
    out
}

/// A phase that loads rows, one after the other.
#[derive(Debug, Clone, Copy, PartialEq, Eq, Structural)]
pub enum Load {
    /// Raw rows into a heap file.
    Raw,
    /// Typed rows, with or without an index.
    Typed(bool),
    /// Rows as SQL text.
    Pipeline,
    /// The two tables of the join.
    Staff,
    Orders,
    /// The rows to be changed.
    Mutate,
}

/// What follows the attempt to load one row.
#[derive(Debug, PartialEq)]
pub enum LoadStep {
    /// Print this line to standard error and give the phase up.
    Stop(String),
    /// Go on, after printing this line to standard error, if any.
    Next(Option<String>),
}

/// The name of a load in its error lines.
pub open spec fn load_name(load: Load) -> Seq<char> {
    match load {
        Load::Raw => "raw insert "@,
        Load::Typed(_) => "typed insert "@,
        Load::Pipeline => "pipeline insert "@,
        Load::Staff => "staff insert "@,
        Load::Orders => "orders insert "@,
        Load::Mutate => "setup insert "@,
    }
}

/// After how many rows a load reports; never for the join's.
pub open spec fn report_interval(load: Load) -> Option<nat> {
    match load {
        Load::Raw => Some(2_000_000),
        Load::Typed(_) => Some(500_000),
        Load::Pipeline => Some(50_000),
        Load::Mutate => Some(500_000),
        _ => None,
    }
}

/// The line that reports how far a load is.
pub open spec fn progress_line(load: Load, i: nat, n: nat) -> Seq<char> {
    let at = text::decimal(i) + "/"@ + text::decimal(n);
    match load {
        Load::Raw => "  ...raw insert "@ + at,
        Load::Typed(indexed) => "  ...typed insert "@ + at + (if indexed {
            " (indexed=true)"@
        } else {
            " (indexed=false)"@
        }),
        Load::Pipeline => "  ...pipeline insert "@ + at,
        _ => "  ...mutate setup "@ + at,
    }
}

/// The line that reports why a load is given up at row `i`.
///
/// A failure is shown with its cause, in the pipeline as the result that the row ended with; the
/// join's and the changed rows count as rejected however they fail.
pub open spec fn load_fault(load: Load, i: nat, o: InsertOutcome) -> Option<Seq<char>> {
    let lead = "[ERROR] "@ + load_name(load) + text::decimal(i);
    match o {
        InsertOutcome::Inserted => None,
        InsertOutcome::Rejected => Some(lead + " rejected"@),
        InsertOutcome::Failed(e) => match load {
            Load::Raw => Some(lead + ": "@ + e@),
            Load::Typed(_) => Some(lead + ": "@ + e@),
            Load::Pipeline => Some(lead + " -> "@ + e@),
            _ => Some(lead + " rejected"@),
        },
    }
}

/// What follows the attempt to load row `i` of `n`.
pub open spec fn load_step(r: LoadStep, load: Load, i: nat, n: nat, o: InsertOutcome) -> bool {
    match load_fault(load, i, o) {
        Some(line) => r matches LoadStep::Stop(t) && t@ == line,
        None => if report_interval(load) is Some && i > 0 && i % report_interval(load)->0 == 0 {
            r matches LoadStep::Next(Some(t)) && t@ == progress_line(load, i, n)
        } else {
            r matches LoadStep::Next(None)
        },
    }
}

fn load_name_text(load: Load) -> (r: &'static str)
    ensures
        r@ == load_name(load),
{
    match load {
        Load::Raw => "raw insert ",
        Load::Typed(_) => "typed insert ",
        Load::Pipeline => "pipeline insert ",
        Load::Staff => "staff insert ",
        Load::Orders => "orders insert ",
        Load::Mutate => "setup insert ",
    }
}

fn progress_text(load: Load, i: u64, n: u64) -> (r: String)
    ensures
        r@ == progress_line(load, i as nat, n as nat),
{
    let a = text::decimal_text(i as u128);
    let b = text::decimal_text(n as u128);
    let at = text::cat3(a.as_str(), "/", b.as_str());
    match load {
        Load::Raw => text::cat2("  ...raw insert ", at.as_str()),
        Load::Typed(indexed) => {
            let flag = if indexed {
                " (indexed=true)"
            } else {
                " (indexed=false)"
            };
            text::cat3("  ...typed insert ", at.as_str(), flag)
        },
        Load::Pipeline => text::cat2("  ...pipeline insert ", at.as_str()),
        _ => text::cat2("  ...mutate setup ", at.as_str()),
    }
}

/// What follows the attempt to load row `i` of `n`.
pub fn after_load(load: Load, i: u64, n: u64, o: &InsertOutcome) -> (r: LoadStep)
    ensures
        load_step(r, load, i as nat, n as nat, *o),
{
    let number = text::decimal_text(i as u128);
    let lead = text::cat3("[ERROR] ", load_name_text(load), number.as_str());
    match o {
        InsertOutcome::Rejected => {
            return LoadStep::Stop(text::cat2(lead.as_str(), " rejected"));
        },
        InsertOutcome::Failed(e) => {
            let line = match load {
                Load::Raw => text::cat3(lead.as_str(), ": ", e.as_str()),
                Load::Typed(_) => text::cat3(lead.as_str(), ": ", e.as_str()),
                Load::Pipeline => text::cat3(lead.as_str(), " -> ", e.as_str()),
                _ => text::cat2(lead.as_str(), " rejected"),
            };
            return LoadStep::Stop(line);
        },
        InsertOutcome::Inserted => {},
    }
    let every: u64 = match load {
        Load::Raw => 2_000_000,
        Load::Typed(_) => 500_000,
        Load::Pipeline => 50_000,
        Load::Mutate => 500_000,
        _ => {
            return LoadStep::Next(None);
        },
    };
    if i > 0 && i % every == 0 {
        LoadStep::Next(Some(progress_text(load, i, n)))
    } else {
        LoadStep::Next(None)
    }
}

/// The query for one row of `staff`.
pub fn point_select_sql(id: u64) -> (r: String)
    ensures
        r@ == "SELECT id, name FROM staff WHERE id = "@ + text::decimal(id as nat),
{
    let n = text::decimal_text(id as u128);
    text::cat2("SELECT id, name FROM staff WHERE id = ", n.as_str())
}

/// A phase that picks rows at random.
#[derive(Debug, Clone, Copy, PartialEq, Eq, Structural)]
pub enum Sampling {
    /// Rows of the raw heap, by their places.
    RawGet,
    /// Rows of `staff`, by [`point_select_sql`].
    PointSelect,
}

/// How many of `n` rows a phase picks: all of them, up to a limit of its own.
pub open spec fn samples(phase: Sampling, n: u64) -> u64 {
    let limit = match phase {
        Sampling::RawGet => 10_000u64,
        Sampling::PointSelect => 1_000u64,
    };
    if n < limit {
        n
    } else {
        limit
    }
}

/// How many of `n` rows a phase picks.
pub fn sample_count(phase: Sampling, n: u64) -> (r: u64)
    ensures
        r == samples(phase, n),
{
    let limit: u64 = match phase {
        Sampling::RawGet => 10_000,
        Sampling::PointSelect => 1_000,
    };
    if n < limit {
        n
    } else {
        limit
    }
}

/// The change that is made to rows of `staff`: everybody earns one more.
pub fn raise() -> (r: Vec<Assignment>)
    ensures
        dml::set_clause(r@) == "salary = salary + 1"@,
{
    let value = ExprNode::Binary {
        left: Box::new(ExprNode::Column("salary".to_owned())),
        op: ArithOp::Add,
        right: Box::new(ExprNode::Constant(ConstantValue::Int(1))),
    };
    let mut out: Vec<Assignment> = Vec::new();
    out.push(Assignment { column: "salary".to_owned(), value });
    proof {
        reveal_with_fuel(render::rendered, 2);
        reveal_with_fuel(text::decimal, 2);
        reveal_strlit("salary");
        reveal_strlit(" = ");
        reveal_strlit(" ");
        reveal_strlit("+");
        reveal_strlit("salary = salary + 1");
        let parts = out@.map_values(|a: Assignment| dml::assignment_text(a));
        assert(text::joined(parts, ", "@) == parts[0]);
        assert(parts[0] =~= "salary = salary + 1"@);
    }
    out
}

/// The condition on the first half of `n` rows.
pub fn half_range(n: u64) -> (r: String)
    ensures
        r@ == "id >= 0 AND id < "@ + text::decimal(n as nat / 2),
{
    let half = text::decimal_text((n / 2) as u128);
    text::cat2("id >= 0 AND id < ", half.as_str())
}

/// The line that reports the join of `m` rows with twice as many.
pub fn join_result_line(matched: u64, ms: u128, m: u64) -> (r: String)
    ensures
        r@ == "[RESULT] phase=hash_join_count matched="@ + text::decimal(matched as nat)
            + " elapsed_ms="@ + text::decimal(ms as nat) + " side_a="@ + text::decimal(m as nat)
            + " side_b="@ + text::decimal(2 * m as nat),
{
    let a = text::decimal_text(matched as u128);
    let b = text::decimal_text(ms);
    let c = text::decimal_text(m as u128);
    let d = text::decimal_text(2 * (m as u128));
    text::cat8(
        "[RESULT] phase=hash_join_count matched=",
        a.as_str(),
        " elapsed_ms=",
        b.as_str(),
        " side_a=",
        c.as_str(),
        " side_b=",
        d.as_str(),
    )
}

/// The line that reports a vacuum.
pub fn vacuum_result_line(pages: u64, dead: u64, indexes: u64, ms: u128) -> (r: String)
    ensures
        r@ == "[RESULT] phase=vacuum pages_compacted="@ + text::decimal(pages as nat)
            + " dead_reclaimed="@ + text::decimal(dead as nat) + " indexes_rebuilt="@
            + text::decimal(indexes as nat) + " elapsed_ms="@ + text::decimal(ms as nat),
{
    let a = text::decimal_text(pages as u128);
    let b = text::decimal_text(dead as u128);
    let c = text::decimal_text(indexes as u128);
    let d = text::decimal_text(ms);
    text::cat8(
        "[RESULT] phase=vacuum pages_compacted=",
        a.as_str(),
        " dead_reclaimed=",
        b.as_str(),
        " indexes_rebuilt=",
        c.as_str(),
        " elapsed_ms=",
        d.as_str(),
    )
}

/// A state is followed by its product with the generator's factor plus its step, in 64 bits.
pub proof fn law_states_follow_each_other(state: u64)
    ensures
        0 <= lcg_next(state) < 0x1_0000_0000_0000_0000,
        exists|k: int| #[trigger] (k * 0x1_0000_0000_0000_0000) + lcg_next(state) == state
            * 6364136223846793005 + 1442695040888963407,
{
    let m = 0x1_0000_0000_0000_0000int;
    let x = state * LCG_FACTOR + LCG_STEP;
    vstd::arithmetic::div_mod::lemma_fundamental_div_mod(x, m);
    vstd::arithmetic::div_mod::lemma_mod_bound(x, m);
    assert(m * (x / m) == (x / m) * m) by (nonlinear_arith);
    let k = x / m;
    assert(k * 0x1_0000_0000_0000_0000 + lcg_next(state) == state * 6364136223846793005
        + 1442695040888963407);
}

/// The rate is the greatest number of rows per second that the time allows for; none without a time.
pub proof fn law_rate_is_rows_per_second(n: nat, ms: nat)
    ensures
        ms == 0 ==> rate(n as int, ms as int) == 0,
        ms > 0 ==> rate(n as int, ms as int) * ms <= n * 1000 < (rate(n as int, ms as int) + 1) * ms,
{
    if ms > 0 {
        let x = n * 1000;
        vstd::arithmetic::div_mod::lemma_fundamental_div_mod(x as int, ms as int);
        vstd::arithmetic::div_mod::lemma_mod_bound(x as int, ms as int);
        let q = x as int / ms as int;
        assert(ms * q == q * ms) by (nonlinear_arith);
        assert((q + 1) * ms == q * ms + ms) by (nonlinear_arith);
    }
}

/// A row of `staff` has its number, a name of the number's last six digits, and a salary of its last
/// five; two rows never share the number.
pub proof fn law_staff_rows(i: nat, j: nat)
    ensures
        staff_literals(i).len() == 3,
        text::digits_number(staff_literals(i)[0]) == i,
        staff_literals(i)[1].len() == 11,
        "user_"@.is_prefix_of(staff_literals(i)[1]),
        text::digits_number(staff_literals(i)[2]) == i % 100_000,
        i < 1_000_000 && j < 1_000_000 && staff_literals(i)[1] == staff_literals(j)[1] ==> i == j,
        staff_literals(i)[0] == staff_literals(j)[0] ==> i == j,
{
    text::law_decimals_stand_for_their_number(i);
    text::law_decimals_stand_for_their_number(j);
    text::law_decimals_stand_for_their_number(i % 100_000);
    lemma_staff_name(i);
    lemma_staff_name(j);
    let a = staff_literals(i)[1];
    let b = staff_literals(j)[1];
    if a == b {
        assert(a.skip(5) == b.skip(5));
    }
}

proof fn lemma_staff_name(i: nat)
    ensures
        staff_literals(i)[1].len() == 11,
        "user_"@.is_prefix_of(staff_literals(i)[1]),
        text::digits_number(staff_literals(i)[1].skip(5)) == i % 1_000_000,
{
    reveal_strlit("user_");
    let d = text::decimal(i % 1_000_000);
    assert(vstd::arithmetic::power::pow(10, 6) == 1_000_000) by {
        reveal(vstd::arithmetic::power::pow);
        reveal_with_fuel(vstd::arithmetic::power::pow, 7);
    }
    lemma_decimal_len(i % 1_000_000, 6);
    let padded = text::zero_padded(d, 6);
    let name = "user_"@ + padded;
    assert(name.subrange(0, 5) =~= "user_"@);
    assert(name.skip(5) =~= padded);
    text::law_decimals_stand_for_their_number(i % 1_000_000);
    lemma_zeros((6 - d.len()) as nat, d);
    assert(padded =~= Seq::new((6 - d.len()) as nat, |i: int| '0') + d);
}

/// Zeros before digits do not change their number.
proof fn lemma_zeros(n: nat, d: Seq<char>)
    ensures
        text::digits_number(Seq::new(n, |i: int| '0') + d) == text::digits_number(d),
    decreases d.len(), n,
{
    let z = Seq::new(n, |i: int| '0');
    let s = z + d;
    if d.len() > 0 {
        lemma_zeros(n, d.drop_last());
        assert(s.drop_last() =~= z + d.drop_last());
        assert(s.last() == d.last());
    } else if n > 0 {
        let y = Seq::new((n - 1) as nat, |i: int| '0');
        lemma_zeros((n - 1) as nat, d);
        assert(s.drop_last() =~= y + d);
        assert(s.last() == '0');
        assert(text::digits_number(d) == 0);
    } else {
        assert(s =~= d);
    }
}

/// The number that bytes stand for, the lowest first.
pub open spec fn bytes_number(b: Seq<u8>) -> int
    decreases b.len(),
{
    if b.len() == 0 {
        0
    } else {
        b[0] + 256 * bytes_number(b.drop_first())
    }
}

proof fn lemma_bytes_number(n: nat, k: nat)
    ensures
        bytes_number(le_bytes(n, k)) == n % (vstd::arithmetic::power::pow(256, k) as nat),
        le_bytes(n, k).len() == k,
    decreases k,
{
    vstd::arithmetic::power::lemma_pow0(256);
    if k > 0 {
        let j = (k - 1) as nat;
        lemma_bytes_number(n / 256, j);
        let rest = le_bytes(n / 256, j);
        let all = le_bytes(n, k);
        assert(all[0] == n % 256);
        assert(all.drop_first() =~= rest);
        vstd::arithmetic::power::lemma_pow_positive(256, j);
        let p = vstd::arithmetic::power::pow(256, j);
        vstd::arithmetic::power::lemma_pow_adds(256, 1, j);
        vstd::arithmetic::power::lemma_pow1(256);
        assert(vstd::arithmetic::power::pow(256, k) == 256 * p);
        vstd::arithmetic::div_mod::lemma_mod_breakdown(n as int, 256, p);
    }
}

/// A raw row is 32 bytes: the number in four and in eight bytes, the lowest first, eleven bytes of a
/// name between them, a zero, and a hash of the number in eight bytes.
pub proof fn law_raw_rows_hold_their_number(i: u64)
    ensures
        raw_row(i).len() == 32,
        bytes_number(raw_row(i).subrange(0, 4)) == i as nat % 0x1_0000_0000,
        raw_row(i)[4] == 'u' as u8,
        raw_row(i)[15] == 0,
        bytes_number(raw_row(i).subrange(16, 24)) == i,
        bytes_number(raw_row(i).subrange(24, 32)) == (i as nat * 0x9E37_79B9)
            % 0x1_0000_0000_0000_0000,
{
    reveal_strlit("u");
    let r = raw_row(i);
    let h = (i as nat * 0x9E37_79B9) % 0x1_0000_0000_0000_0000;
    lemma_bytes_number(i as nat, 4);
    lemma_bytes_number(i as nat, 8);
    lemma_bytes_number(h, 8);
    assert(vstd::arithmetic::power::pow(256, 4) == 0x1_0000_0000) by {
        reveal(vstd::arithmetic::power::pow);
        reveal_with_fuel(vstd::arithmetic::power::pow, 5);
    }
    assert(vstd::arithmetic::power::pow(256, 8) == 0x1_0000_0000_0000_0000) by {
        reveal(vstd::arithmetic::power::pow);
        reveal_with_fuel(vstd::arithmetic::power::pow, 9);
    }
    let m = 0x1_0000_0000_0000_0000nat;
    vstd::arithmetic::div_mod::lemma_small_mod(i as nat, m);
    vstd::arithmetic::div_mod::lemma_mod_bound((i as nat * 0x9E37_79B9) as int, m as int);
    vstd::arithmetic::div_mod::lemma_small_mod(h, m);
    assert(vstd::arithmetic::power::pow(256, 8) as nat == m);
    assert(r.subrange(0, 4) =~= le_bytes(i as nat, 4));
    assert(r.subrange(16, 24) =~= le_bytes(i as nat, 8));
    assert(r.subrange(24, 32) =~= le_bytes(h, 8));
    assert(raw_name(i as nat)[0] == 'u');
}

/// A count that a query gives as a signed number is taken as the unsigned number of the same bits.
pub proof fn law_counts_keep_their_bits(v: i64)
    ensures
        0 <= wrapped(v as int) <= u64::MAX,
        v >= 0 ==> wrapped(v as int) == v,
        v < 0 ==> wrapped(v as int) == u64::MAX + 1 + v,
{
}

/// A number is read as it is written, behind a `+` or without; one that 64 bits do not hold, and
/// anything but digits, is no number.
pub proof fn law_numbers_are_read_as_written(n: nat, s: Seq<char>)
    ensures
        n <= u64::MAX ==> number(text::decimal(n)) == Some(n),
        n <= u64::MAX ==> number(seq!['+'] + text::decimal(n)) == Some(n),
        n > u64::MAX ==> number(text::decimal(n)) is None,
        number(Seq::empty()) is None,
        (s.len() > 0 && !('0' <= s.last() <= '9')) ==> number(s) is None,
        (s.len() > 0 && s[0] != '+' && !('0' <= s[0] <= '9')) ==> number(s) is None,
{
    reveal_strlit("+");
    text::law_decimals_stand_for_their_number(n);
    let d = text::decimal(n);
    lemma_digits_value(d);
    assert(!"+"@.is_prefix_of(d)) by {
        if "+"@.is_prefix_of(d) {
            assert(d[0] == "+"@[0]);
        }
    }
    let p = seq!['+'] + d;
    assert(p.subrange(0, 1) =~= "+"@);
    assert("+"@.is_prefix_of(p));
    assert(p.skip(1) =~= d);
    if "+"@.is_prefix_of(Seq::<char>::empty()) {
        assert("+"@.len() == 1);
    }
    if s.len() > 0 && !('0' <= s.last() <= '9') {
        if "+"@.is_prefix_of(s) {
            if s.len() > 1 {
                assert(s.skip(1).last() == s.last());
            }
        }
    }
    if s.len() > 0 && s[0] != '+' && !('0' <= s[0] <= '9') {
        if "+"@.is_prefix_of(s) {
            assert(s[0] == "+"@[0]);
        }
        if digits_value(s) is Some {
            lemma_digits(s, 1);
            assert(s.take(1).last() == s[0]);
        }
    }
}

proof fn lemma_digits_value(d: Seq<char>)
    requires
        d.len() > 0,
        forall|i: int| 0 <= i < d.len() ==> '0' <= #[trigger] d[i] <= '9',
    ensures
        digits_value(d) is Some,
        digits_value(d)->0 == text::digits_number(d),
    decreases d.len(),
{
    assert('0' <= d[d.len() - 1] <= '9');
    if d.len() == 1 {
        assert(d.drop_last() =~= Seq::<char>::empty());
        assert(text::digits_number(Seq::<char>::empty()) == 0);
    } else {
        let t = d.drop_last();
        assert forall|i: int| 0 <= i < t.len() implies '0' <= #[trigger] t[i] <= '9' by {
            assert(t[i] == d[i]);
        }
        lemma_digits_value(t);
    }
}

/// The first argument behind the program's name says the phase, the second its size, and the third
/// whether the engine phase has an index; a size that is no number is told before a phase that is
/// unknown, and too few arguments before both.
pub proof fn law_arguments_say_the_phase_and_its_size(
    r: BenchCommand,
    args: Seq<Seq<char>>,
    size: nat,
)
    requires
        asks_for(r, args),
    ensures
        args.len() < 3 <==> r is Usage,
        args.len() >= 3 && number(args[2]) is None <==> r is BadSize,
        args.len() >= 3 && number(args[2]) == Some(size) && args[1] == "raw"@ ==> (
        r matches BenchCommand::Run { phase, n } && phase is Raw && n == size),
        args.len() == 3 && number(args[2]) == Some(size) && args[1] == "engine"@ ==> (
        r matches BenchCommand::Run { phase, n } && phase == Phase::Engine(false) && n == size),
        args.len() > 3 && number(args[2]) == Some(size) && args[1] == "engine"@ ==> (
        r matches BenchCommand::Run { phase, n } && phase == Phase::Engine(args[3] == "idx"@) && n
            == size),
        args.len() >= 3 && number(args[2]) == Some(size) && args[1] == "sql"@ ==> (
        r matches BenchCommand::Run { phase, n } && phase is Sql && n == size),
        args.len() >= 3 && number(args[2]) == Some(size) && args[1] == "join"@ ==> (
        r matches BenchCommand::Run { phase, n } && phase is Join && n == size),
        args.len() >= 3 && number(args[2]) == Some(size) && args[1] == "mutate"@ ==> (
        r matches BenchCommand::Run { phase, n } && phase is Mutate && n == size),
        r matches BenchCommand::UnknownPhase(name) ==> name@ == args[1] && args[1] != "raw"@
            && args[1] != "engine"@ && args[1] != "sql"@ && args[1] != "join"@ && args[1]
            != "mutate"@,
{
    reveal_strlit("raw");
    reveal_strlit("engine");
    reveal_strlit("sql");
    reveal_strlit("join");
    reveal_strlit("mutate");
    assert("raw"@[0] == 'r' && "engine"@[0] == 'e' && "sql"@[0] == 's' && "join"@[0] == 'j'
        && "mutate"@[0] == 'm');
}

/// A load goes on after a row that was inserted, and is given up after any other: the line names
/// the load and the row.
pub proof fn law_loads_stop_at_the_first_failure(
    r: LoadStep,
    load: Load,
    i: nat,
    n: nat,
    o: InsertOutcome,
)
    requires
        load_step(r, load, i, n, o),
    ensures
        o is Inserted <==> r is Next,
        r matches LoadStep::Stop(line) ==> ("[ERROR] "@ + load_name(load) + text::decimal(
            i,
        )).is_prefix_of(line@),
        o is Rejected ==> (r matches LoadStep::Stop(line) && line@ == "[ERROR] "@ + load_name(load)
            + text::decimal(i) + " rejected"@),
        o matches InsertOutcome::Failed(e) ==> (load is Raw || load is Typed ==> (
        r matches LoadStep::Stop(line) && line@ == "[ERROR] "@ + load_name(load) + text::decimal(i)
            + ": "@ + e@)),
        o matches InsertOutcome::Failed(e) ==> (load is Pipeline ==> (r matches LoadStep::Stop(line)
            && line@ == "[ERROR] "@ + load_name(load) + text::decimal(i) + " -> "@ + e@)),
        i == 0 && o is Inserted ==> r == LoadStep::Next(None),
{
    let lead = "[ERROR] "@ + load_name(load) + text::decimal(i);
    if let LoadStep::Stop(line) = r {
        assert(line@.subrange(0, lead.len() as int) =~= lead);
    }
}

/// A load reports how far it is at every multiple of its interval, and at no other row.
pub proof fn law_loads_report_at_their_interval(r: LoadStep, load: Load, k: nat, i: nat, n: nat)
    requires
        load_step(r, load, i, n, InsertOutcome::Inserted),
        i > 0,
    ensures
        load is Raw && i == k * 2_000_000 ==> r matches LoadStep::Next(Some(_)),
        load is Typed && i == k * 500_000 ==> r matches LoadStep::Next(Some(_)),
        load is Mutate && i == k * 500_000 ==> r matches LoadStep::Next(Some(_)),
        load is Pipeline && i == k * 50_000 ==> r matches LoadStep::Next(Some(_)),
        load is Raw && i % 2_000_000 != 0 ==> r == LoadStep::Next(None),
        load is Typed && i % 500_000 != 0 ==> r == LoadStep::Next(None),
        load is Mutate && i % 500_000 != 0 ==> r == LoadStep::Next(None),
        load is Pipeline && i % 50_000 != 0 ==> r == LoadStep::Next(None),
        load is Staff || load is Orders ==> r == LoadStep::Next(None),
        r matches LoadStep::Next(Some(line)) ==> text::contains(
            line@,
            text::decimal(i) + "/"@ + text::decimal(n),
        ),
{
    let at = text::decimal(i) + "/"@ + text::decimal(n);
    if let LoadStep::Next(Some(line)) = r {
        assert(line@ == progress_line(load, i, n));
        let t = line@;
        match load {
            Load::Raw => {
                lemma_at(t, "  ...raw insert "@, at, Seq::empty());
            },
            Load::Typed(indexed) => {
                lemma_at(
                    t,
                    "  ...typed insert "@,
                    at,
                    if indexed {
                        " (indexed=true)"@
                    } else {
                        " (indexed=false)"@
                    },
                );
            },
            Load::Pipeline => {
                lemma_at(t, "  ...pipeline insert "@, at, Seq::empty());
            },
            _ => {
                lemma_at(t, "  ...mutate setup "@, at, Seq::empty());
            },
        }
    }
}

proof fn lemma_at(t: Seq<char>, lead: Seq<char>, at: Seq<char>, tail: Seq<char>)
    requires
        t =~= lead + at + tail,
    ensures
        text::contains(t, at),
{
    let n = lead.len() as int;
    assert(t.subrange(n, n + at.len()) =~= at);
    assert(text::occurs_at(t, at, n));
}

/// A sample is never larger than the rows, nor than the limit of its phase, and as large as both
/// allow.
pub proof fn law_samples_are_bounded(n: u64)
    ensures
        samples(Sampling::RawGet, n) <= n,
        samples(Sampling::RawGet, n) <= 10_000,
        samples(Sampling::RawGet, n) == n || samples(Sampling::RawGet, n) == 10_000,
        samples(Sampling::PointSelect, n) <= n,
        samples(Sampling::PointSelect, n) <= 1_000,
        samples(Sampling::PointSelect, n) == n || samples(Sampling::PointSelect, n) == 1_000,
{
}

/// An error line and a progress line say which load they are of.
pub proof fn law_loads_are_named(i: nat, n: nat, indexed: bool)
    ensures
        load_name(Load::Raw) == "raw insert "@,
        load_name(Load::Typed(indexed)) == "typed insert "@,
        load_name(Load::Pipeline) == "pipeline insert "@,
        load_name(Load::Staff) == "staff insert "@,
        load_name(Load::Orders) == "orders insert "@,
        load_name(Load::Mutate) == "setup insert "@,
        "  ...raw insert "@.is_prefix_of(progress_line(Load::Raw, i, n)),
        "  ...typed insert "@.is_prefix_of(progress_line(Load::Typed(indexed), i, n)),
        (if indexed {
            " (indexed=true)"@
        } else {
            " (indexed=false)"@
        }).is_suffix_of(progress_line(Load::Typed(indexed), i, n)),
        "  ...pipeline insert "@.is_prefix_of(progress_line(Load::Pipeline, i, n)),
        "  ...mutate setup "@.is_prefix_of(progress_line(Load::Mutate, i, n)),
{
    let at = text::decimal(i) + "/"@ + text::decimal(n);
    lemma_leads("  ...raw insert "@, at);
    lemma_leads("  ...pipeline insert "@, at);
    lemma_leads("  ...mutate setup "@, at);
    let tail = if indexed {
        " (indexed=true)"@
    } else {
        " (indexed=false)"@
    };
    let t = progress_line(Load::Typed(indexed), i, n);
    let lead = "  ...typed insert "@;
    assert(t.subrange(0, lead.len() as int) =~= lead);
    assert(t.subrange(t.len() - tail.len(), t.len() as int) =~= tail);
}

proof fn lemma_leads(lead: Seq<char>, at: Seq<char>)
    ensures
        lead.is_prefix_of(lead + at),
{
    assert((lead + at).subrange(0, lead.len() as int) =~= lead);
}

/// A phase is reported with its name, its size, its time and its rate, in this order, and with what
/// else there is to say.
pub proof fn law_phases_are_reported(name: &str, n: u64, ms: u128, extra: &str, line: String)
    requires
        call_ensures(result_line, (name, n, ms, extra), line),
    ensures
        line@ == "[RESULT] phase="@ + name@ + " n="@ + text::decimal(n as nat) + " elapsed_ms="@
            + text::decimal(ms as nat) + " rows_per_sec="@ + text::decimal(
            rate(n as int, ms as int) as nat,
        ) + " "@ + extra@,
{
    let lead = "[RESULT] phase="@ + name@ + " n="@ + text::decimal(n as nat) + " elapsed_ms="@
        + text::decimal(ms as nat) + " rows_per_sec="@ + text::decimal(
        rate(n as int, ms as int) as nat,
    );
    assert(lead + (" "@ + extra@) =~= lead + " "@ + extra@);
}

/// A row of `orders` has its number, the number of a row of `staff` that is there, and an amount
/// below 500.
pub proof fn law_orders_belong_to_staff(i: u64, m: u64, row: Vec<String>)
    requires
        m > 0,
        call_ensures(orders_row, (i, m), row),
    ensures
        row@.len() == 3,
        text::digits_number(row@[0]@) == i,
        0 <= text::digits_number(row@[1]@) < m,
        (i - text::digits_number(row@[1]@)) % (m as int) == 0,
        text::digits_number(row@[2]@) == i % 500,
{
    let v = text::views(row@);
    assert(v.len() == row@.len());
    assert(v[0] == row@[0]@ && v[1] == row@[1]@ && v[2] == row@[2]@);
    let k = i as nat % m as nat;
    text::law_decimals_stand_for_their_number(i as nat);
    text::law_decimals_stand_for_their_number(k);
    text::law_decimals_stand_for_their_number(i as nat % 500);
    vstd::arithmetic::div_mod::lemma_mod_bound(i as int, m as int);
    vstd::arithmetic::div_mod::lemma_fundamental_div_mod(i as int, m as int);
    let q = i as int / m as int;
    assert(i - k == m * q);
    assert(m * q == q * m) by (nonlinear_arith);
    vstd::arithmetic::div_mod::lemma_mod_multiples_basic(q, m as int);
}

/// The statements of the benchmark hold the row that they are about: its literals, or its number.
pub proof fn law_statements_hold_their_row(
    i: u64,
    n: u64,
    insert: String,
    select: String,
    half: String,
)
    requires
        call_ensures(staff_insert_sql, (i,), insert),
        call_ensures(point_select_sql, (i,), select),
        call_ensures(half_range, (n,), half),
    ensures
        insert@ == "INSERT INTO staff VALUES ("@ + text::decimal(i as nat) + ", '"@
            + staff_literals(i as nat)[1] + "', "@ + text::decimal(i as nat % 100_000) + ")"@,
        select@ == "SELECT id, name FROM staff WHERE id = "@ + text::decimal(i as nat),
        half@ == "id >= 0 AND id < "@ + text::decimal(n as nat / 2),
{
}

/// The join and the vacuum are reported with what was counted, each count under its own name.
pub proof fn law_counts_are_reported_under_their_names(
    a: u64,
    b: u64,
    c: u64,
    ms: u128,
    join: String,
    vacuum: String,
)
    requires
        call_ensures(join_result_line, (a, ms, b), join),
        call_ensures(vacuum_result_line, (a, b, c, ms), vacuum),
    ensures
        join@ == "[RESULT] phase=hash_join_count matched="@ + text::decimal(a as nat)
            + " elapsed_ms="@ + text::decimal(ms as nat) + " side_a="@ + text::decimal(b as nat)
            + " side_b="@ + text::decimal((b + b) as nat),
        vacuum@ == "[RESULT] phase=vacuum pages_compacted="@ + text::decimal(a as nat)
            + " dead_reclaimed="@ + text::decimal(b as nat) + " indexes_rebuilt="@ + text::decimal(
            c as nat,
        ) + " elapsed_ms="@ + text::decimal(ms as nat),
{
}

/// A count is read from an integer of either width; a missing one counts as none, and a value of
/// another type is no count.
pub proof fn law_counts_are_read(cell: CountCell, count: Result<u64, String>)
    requires
        call_ensures(count_of, (&cell,), count),
    ensures
        cell is Missing ==> (count matches Ok(n) && n == 0),
        cell matches CountCell::Int(v) ==> (v >= 0 ==> (count matches Ok(n) && n == v)),
        cell matches CountCell::BigInt(v) ==> (v >= 0 ==> (count matches Ok(n) && n == v)),
        cell is Other ==> count is Err,
{
}

/// The name of a raw row is a `u` and ten digits, which stand for the row's number up to nine digits
/// of it.
pub proof fn law_raw_rows_hold_their_name(i: u64, j: int)
    ensures
        raw_name(i as nat).len() == 11,
        raw_name(i as nat)[0] == 'u',
        text::digits_number(raw_name(i as nat).skip(1)) == i % 1_000_000_000,
        0 <= j < 11 ==> raw_row(i)[4 + j] == raw_name(i as nat)[j] as u8,
{
    reveal_strlit("u");
    let n = i as nat % 1_000_000_000;
    let d = text::decimal(n);
    assert(vstd::arithmetic::power::pow(10, 9) == 1_000_000_000) by {
        reveal(vstd::arithmetic::power::pow);
        reveal_with_fuel(vstd::arithmetic::power::pow, 10);
    }
    lemma_decimal_len(n, 9);
    let padded = text::zero_padded(d, 10);
    assert(raw_name(i as nat).skip(1) =~= padded);
    text::law_decimals_stand_for_their_number(n);
    lemma_zeros((10 - d.len()) as nat, d);
    assert(padded =~= Seq::new((10 - d.len()) as nat, |i: int| '0') + d);
    lemma_le_len(i as nat, 4);
}

} // verus!
