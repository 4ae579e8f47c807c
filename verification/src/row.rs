//! Stored rows: reading, writing and migrating them, and testing them for `NULL`.
//!
//! A stored row is `[columns: u16][var-len columns: u16][null bitmap][var-len offsets][data]`,
//! all integers little-endian. The storage engine reads and writes it.

use vstd::prelude::*;
use storage_manager::types::DataType as EngineType;
use storage_manager::types::DataValue;
use storage_manager::types::NullBitmap;
use crate::datatype::{to_engine, ColumnType};
use crate::errors;
use crate::errors::{DbError, ErrorKind, ErrorView};
use crate::text;

verus! {

/// The engine's null bitmap: `storage_manager::types::NullBitmap`.
#[verifier::external_type_specification]
#[verifier::external_body]
pub struct ExNullBitmap(storage_manager::types::NullBitmap);

/// What `storage_manager::types::deserialize_nullable_row` makes of a stored row.
pub uninterp spec fn decoded_row(schema: Seq<ColumnType>, row: Seq<u8>) -> Result<
    Seq<Option<DataValue>>,
    Seq<char>,
>;

/// What `storage_manager::types::row::serialize_nullable_typed_row` makes of a row's values.
pub uninterp spec fn encoded_row(schema: Seq<ColumnType>, values: Seq<Option<DataValue>>) -> Result<
    Seq<u8>,
    Seq<char>,
>;

/// The null flag of each column that a bitmap covers.
pub uninterp spec fn null_flags(bitmap: NullBitmap) -> Seq<bool>;

/// The number of bytes of a null bitmap over `n` columns.
pub open spec fn bitmap_len(n: nat) -> nat {
    (n + 7) / 8
}

/// The little-endian `u16` at byte `at`.
pub open spec fn u16_at(row: Seq<u8>, at: int) -> int {
    row[at] + 256 * row[at + 1]
}

/// Bit `i` of `raw`, the least significant bit of each byte first.
pub open spec fn bit_at(raw: Seq<u8>, i: int) -> bool {
    raw[i / 8] & (1u8 << ((i % 8) as u8)) != 0
}

/// The number of variable-length columns.
pub open spec fn varlen_count(schema: Seq<ColumnType>) -> nat
    decreases schema.len(),
{
    if schema.len() == 0 {
        0
    } else {
        varlen_count(schema.drop_last()) + if schema.last() is Varchar {
            1nat
        } else {
            0nat
        }
    }
}

/// The offsets of a row's variable-length data, where the row is long enough to hold them, lie
/// inside the row and ascend. Offset `0` stands for `NULL`.
pub open spec fn row_readable(schema: Seq<ColumnType>, row: Seq<u8>) -> bool {
    let table = 4 + bitmap_len(schema.len());
    let n = varlen_count(schema);
    row.len() >= table + 2 * n ==> {
        &&& forall|i: int| 0 <= i < n ==> #[trigger] u16_at(row, table + 2 * i) <= row.len()
        &&& forall|i: int, j: int|
            0 <= i < j < n && u16_at(row, table + 2 * i) != 0 && u16_at(row, table + 2 * j) != 0
                ==> #[trigger] u16_at(row, table + 2 * i) <= #[trigger] u16_at(row, table + 2 * j)
    }
}

/// `v` was read from column `j` of a stored row whose type there is `ty`.
pub open spec fn read_from(
    ty: ColumnType,
    v: DataValue,
    schema: Seq<ColumnType>,
    row: Seq<u8>,
    j: int,
) -> bool {
    &&& 0 <= j < schema.len()
    &&& schema[j] == ty
    &&& row_readable(schema, row)
    &&& decoded_row(schema, row) is Ok
    &&& decoded_row(schema, row)->Ok_0[j] == Some(v)
}

/// Every value was read from a stored row, as a value of its column's type.
pub open spec fn stored_values(schema: Seq<ColumnType>, values: Seq<Option<DataValue>>) -> bool {
    &&& values.len() == schema.len()
    &&& forall|i: int|
        0 <= i < values.len() && (#[trigger] values[i]) is Some ==> exists|
            s: Seq<ColumnType>,
            row: Seq<u8>,
            j: int,
        | #[trigger] read_from(schema[i], values[i]->0, s, row, j)
}

/// The null flag that a stored row holds for column `i`; `false` where it holds none.
pub open spec fn null_in_row(row: Seq<u8>, i: int) -> bool {
    &&& row.len() >= 4
    &&& i < u16_at(row, 0)
    &&& row.len() >= 4 + bitmap_len(u16_at(row, 0) as nat)
    &&& bit_at(row.skip(4), i)
}

/// Reads a stored row: `storage_manager::types::deserialize_nullable_row`. The result depends on
/// the schema and the bytes alone, and a row that is read has one value, or `NULL`, for each
/// column. The engine slices the row at its variable-length offsets without testing them, so
/// the row must be readable.
#[verifier::external_body]
pub(crate) fn decode_row(schema: &Vec<ColumnType>, row: &Vec<u8>) -> (r: Result<
    Vec<Option<DataValue>>,
    String,
>)
    requires
        row_readable(schema@, row@),
    ensures
        match r {
            Ok(values) => decoded_row(schema@, row@) == Ok::<Seq<Option<DataValue>>, Seq<char>>(
                values@,
            ) && values@.len() == schema@.len(),
            Err(e) => decoded_row(schema@, row@) == Err::<Seq<Option<DataValue>>, Seq<char>>(e@),
        },
{
    let types: Vec<EngineType> = schema.iter().map(to_engine).collect();
    storage_manager::types::deserialize_nullable_row(&types, row)
}

/// Writes a row: `storage_manager::types::row::serialize_nullable_typed_row`. The result depends
/// on the schema and the values alone. Values that were themselves read from stored rows, under
/// the types they are written with, are always written: the engine refuses a value only for its
/// type, scale, digits or length, and what was read has those of its column. Where the column
/// count and every offset fit in the 16 bits that the format has for them, reading the row back
/// gives the same values, and its bitmap marks the `NULL` columns.
#[verifier::external_body]
pub(crate) fn encode_row(schema: &Vec<ColumnType>, values: &Vec<Option<DataValue>>) -> (r: Result<
    Vec<u8>,
    String,
>)
    requires
        stored_values(schema@, values@),
    ensures
        r is Ok,
        match r {
            Ok(row) => encoded_row(schema@, values@) == Ok::<Seq<u8>, Seq<char>>(row@),
            Err(e) => encoded_row(schema@, values@) == Err::<Seq<u8>, Seq<char>>(e@),
        },
        r is Ok && schema@.len() <= 0xffff && r->Ok_0@.len() <= 0xffff ==> {
            &&& row_readable(schema@, r->Ok_0@)
            &&& decoded_row(schema@, r->Ok_0@) == Ok::<Seq<Option<DataValue>>, Seq<char>>(values@)
            &&& forall|i: int|
                0 <= i < values@.len() ==> #[trigger] null_in_row(r->Ok_0@, i) == (
                values@[i] is None)
        },
{
    let types: Vec<EngineType> = schema.iter().map(to_engine).collect();
    storage_manager::types::row::serialize_nullable_typed_row(&types, values)
}

/// Wraps the bytes of a bitmap: `storage_manager::types::NullBitmap::from_bytes`, which takes
/// exactly the bytes that its columns need, one bit each.
#[verifier::external_body]
pub(crate) fn bitmap_of(columns: usize, raw: &Vec<u8>) -> (r: Result<NullBitmap, String>)
    ensures
        r is Ok <==> raw@.len() == bitmap_len(columns as nat),
        r is Ok ==> null_flags(r->Ok_0) == Seq::new(columns as nat, |i: int| bit_at(raw@, i)),
{
    NullBitmap::from_bytes(columns, raw)
}

/// The flag of one column: `storage_manager::types::NullBitmap::is_null`, which panics where the
/// bitmap does not cover the column.
#[verifier::external_body]
pub(crate) fn bitmap_is_null(bitmap: &NullBitmap, column: usize) -> (r: bool)
    requires
        column < null_flags(*bitmap).len(),
    ensures
        r == null_flags(*bitmap)[column as int],
{
    bitmap.is_null(column)
}

/// The little-endian `u16` at byte `at`.
fn read_u16(row: &Vec<u8>, at: usize) -> (r: usize)
    requires
        at + 1 < row.len(),
    ensures
        r == u16_at(row@, at as int),
        r <= 0xffff,
{
    row[at] as usize + 256 * (row[at + 1] as usize)
}

/// Whether a stored row can be read under a schema.
#[verifier::loop_isolation(false)]
pub fn row_is_readable(schema: &Vec<ColumnType>, row: &Vec<u8>) -> (r: bool)
    ensures
        r == row_readable(schema@, row@),
{
    let mut n: usize = 0;
    let mut i: usize = 0;
    assert(schema@.take(0) =~= Seq::<ColumnType>::empty());
    while i < schema.len()
        invariant
            i <= schema.len(),
            n <= i,
            n == varlen_count(schema@.take(i as int)),
        decreases schema.len() - i,
    {
        assert(schema@.take(i + 1).drop_last() =~= schema@.take(i as int));
        if let ColumnType::Varchar(_) = schema[i] {
            n = n + 1;
        }
        i = i + 1;
    }
    assert(schema@.take(i as int) =~= schema@);
    let bitmap: usize = schema.len() / 8 + if schema.len() % 8 == 0 {
        0
    } else {
        1
    };
    assert(bitmap == bitmap_len(schema@.len()));
    let ghost table = 4 + bitmap;
    if row.len() < 4 || row.len() - 4 < bitmap || (row.len() - 4 - bitmap) / 2 < n {
        return true;
    }
    let start: usize = 4 + bitmap;
    let mut last: usize = 0;
    let mut k: usize = 0;
    while k < n
        invariant
            k <= n,
            start == table,
            start + 2 * n <= row.len(),
            last <= row@.len(),
            forall|a: int| 0 <= a < k ==> #[trigger] u16_at(row@, start + 2 * a) <= last,
            last == 0 || exists|a: int| 0 <= a < k && #[trigger] u16_at(row@, start + 2 * a) == last,
            forall|a: int, b: int|
                0 <= a < b < k && u16_at(row@, start + 2 * a) != 0 && u16_at(row@, start + 2 * b)
                    != 0 ==> #[trigger] u16_at(row@, start + 2 * a) <= #[trigger] u16_at(
                    row@,
                    start + 2 * b,
                ),
        decreases n - k,
    {
        let off: usize = read_u16(row, start + 2 * k);
        assert(off == u16_at(row@, start + 2 * k));
        if off > row.len() {
            assert(!row_readable(schema@, row@));
            return false;
        }
        if off != 0 {
            if off < last {
                let ghost a = choose|a: int| 0 <= a < k && #[trigger] u16_at(row@, start + 2 * a) == last;
                assert(u16_at(row@, table + 2 * a) > u16_at(row@, table + 2 * k));
                assert(!row_readable(schema@, row@));
                return false;
            }
            last = off;
        }
        k = k + 1;
    }
    true
}

/// The null flag that a stored row holds for a column; `false` where the row holds none.
pub fn column_is_null(row: &Vec<u8>, column: usize) -> (r: bool)
    ensures
        r == null_in_row(row@, column as int),
{
    if row.len() < 4 {
        return false;
    }
    let columns: usize = read_u16(row, 0);
    if column >= columns {
        return false;
    }
    let bitmap: usize = (columns + 7) / 8;
    if row.len() < 4 + bitmap {
        return false;
    }
    let mut raw: Vec<u8> = Vec::new();
    let mut i: usize = 0;
    while i < bitmap
        invariant
            i <= bitmap,
            4 + bitmap <= row.len(),
            raw@ == row@.subrange(4, 4 + i),
        decreases bitmap - i,
    {
        raw.push(row[4 + i]);
        i = i + 1;
    }
    match bitmap_of(columns, &raw) {
        Ok(flags) => {
            assert(raw@[column as int / 8] == row@.skip(4)[column as int / 8]);
            bitmap_is_null(&flags, column)
        },
        Err(_) => false,
    }
}

/// How the rows of a table change with its columns.
#[derive(Debug, Clone, Copy, PartialEq, Eq, Structural)]
pub enum RowChange {
    /// A new last column, `NULL` in every row.
    AppendNull,
    /// The column at this position goes.
    Remove(usize),
}

/// The values of a row after the change.
pub open spec fn changed(change: RowChange, values: Seq<Option<DataValue>>) -> Seq<
    Option<DataValue>,
> {
    match change {
        RowChange::AppendNull => values.push(None),
        RowChange::Remove(p) => values.remove(p as int),
    }
}

/// `new` is the schema that the change makes of `old`.
pub open spec fn schema_change(
    change: RowChange,
    old: Seq<ColumnType>,
    new: Seq<ColumnType>,
) -> bool {
    match change {
        RowChange::AppendNull => new.len() > 0 && new.drop_last() == old,
        RowChange::Remove(p) => p < old.len() && new == old.remove(p as int),
    }
}

/// One stored row after the change: read under the old schema and written under the new one.
pub open spec fn migrated_row(
    change: RowChange,
    old: Seq<ColumnType>,
    new: Seq<ColumnType>,
    task: Seq<char>,
    row: Seq<u8>,
) -> Result<Seq<u8>, ErrorView> {
    match decoded_row(old, row) {
        Err(e) => Err(
            errors::error(
                ErrorKind::InvalidData,
                "Failed to deserialize row during "@ + task + ": "@ + e,
            ),
        ),
        Ok(values) => match encoded_row(new, changed(change, values)) {
            Err(e) => Err(
                errors::error(
                    ErrorKind::InvalidData,
                    "Failed to serialize row during "@ + task + ": "@ + e,
                ),
            ),
            Ok(bytes) => Ok(bytes),
        },
    }
}

/// A row as the scan of a heap gives it: its bytes, or the error that stopped the scan.
pub open spec fn scan_view(r: Result<Vec<u8>, DbError>) -> Result<Seq<u8>, ErrorView> {
    match r {
        Ok(b) => Ok(b@),
        Err(e) => Err(e@),
    }
}

pub open spec fn scan_views(rows: Seq<Result<Vec<u8>, DbError>>) -> Seq<Result<Seq<u8>, ErrorView>> {
    rows.map_values(|r: Result<Vec<u8>, DbError>| scan_view(r))
}

/// All rows of a scan after the change; the first error, of the scan or of a row, ends it.
pub open spec fn migrated_rows(
    change: RowChange,
    old: Seq<ColumnType>,
    new: Seq<ColumnType>,
    task: Seq<char>,
    rows: Seq<Result<Seq<u8>, ErrorView>>,
) -> Result<Seq<Seq<u8>>, ErrorView>
    decreases rows.len(),
{
    if rows.len() == 0 {
        Ok(Seq::empty())
    } else {
        match migrated_rows(change, old, new, task, rows.drop_last()) {
            Err(e) => Err(e),
            Ok(done) => match rows.last() {
                Err(e) => Err(e),
                Ok(row) => match migrated_row(change, old, new, task, row) {
                    Err(e) => Err(e),
                    Ok(bytes) => Ok(done.push(bytes)),
                },
            },
        }
    }
}

/// Rewrites one stored row.
pub fn migrate_row(
    change: RowChange,
    old: &Vec<ColumnType>,
    new: &Vec<ColumnType>,
    task: &str,
    row: &Vec<u8>,
) -> (r: Result<Vec<u8>, DbError>)
    requires
        row_readable(old@, row@),
        schema_change(change, old@, new@),
    ensures
        scan_view(r) == migrated_row(change, old@, new@, task@, row@),
        // a row that can be read is rewritten
        r is Ok <==> decoded_row(old@, row@) is Ok,
        // reading the new row gives the old values with the change made, where they fit the format
        r is Ok && new@.len() <= 0xffff && r->Ok_0@.len() <= 0xffff ==> {
            &&& decoded_row(old@, row@) is Ok
            &&& row_readable(new@, r->Ok_0@)
            &&& decoded_row(new@, r->Ok_0@) == Ok::<Seq<Option<DataValue>>, Seq<char>>(
                changed(change, decoded_row(old@, row@)->Ok_0),
            )
            &&& change is AppendNull ==> null_in_row(r->Ok_0@, old@.len() as int)
        },
{
    let mut values = match decode_row(old, row) {
        Ok(values) => values,
        Err(e) => {
            let message = text::cat4("Failed to deserialize row during ", task, ": ", e.as_str());
            return Err(DbError { kind: ErrorKind::InvalidData, message });
        },
    };
    let ghost was = values@;
    match change {
        RowChange::AppendNull => {
            values.push(None);
        },
        RowChange::Remove(p) => {
            let _ = values.remove(p);
        },
    }
    proof {
        assert(values@ =~= changed(change, was));
        assert forall|i: int| 0 <= i < values@.len() && (#[trigger] values@[i]) is Some implies exists|
            s: Seq<ColumnType>,
            b: Seq<u8>,
            j: int,
        | #[trigger] read_from(new@[i], values@[i]->0, s, b, j) by {
            let j = match change {
                RowChange::AppendNull => i,
                RowChange::Remove(p) => if i < p { i } else { i + 1 },
            };
            assert(was[j] == values@[i]);
            if change is AppendNull {
                assert(new@.drop_last()[i] == new@[i]);
            }
            assert(read_from(new@[i], values@[i]->0, old@, row@, j));
        }
    }
    match encode_row(new, &values) {
        Ok(bytes) => Ok(bytes),
        Err(e) => {
            let message = text::cat4("Failed to serialize row during ", task, ": ", e.as_str());
            Err(DbError { kind: ErrorKind::InvalidData, message })
        },
    }
}

/// An error among the first `i` rows is the error of all.
proof fn lemma_first_error(
    change: RowChange,
    old: Seq<ColumnType>,
    new: Seq<ColumnType>,
    task: Seq<char>,
    rows: Seq<Result<Seq<u8>, ErrorView>>,
    i: int,
)
    requires
        0 <= i <= rows.len(),
        migrated_rows(change, old, new, task, rows.take(i)) is Err,
    ensures
        migrated_rows(change, old, new, task, rows) == migrated_rows(
            change,
            old,
            new,
            task,
            rows.take(i),
        ),
    decreases rows.len(),
{
    if i == rows.len() {
        assert(rows.take(i) =~= rows);
    } else {
        assert(rows.drop_last().take(i) =~= rows.take(i));
        lemma_first_error(change, old, new, task, rows.drop_last(), i);
    }
}

pub open spec fn rows_view(r: Result<Vec<Vec<u8>>, DbError>) -> Result<Seq<Seq<u8>>, ErrorView> {
    match r {
        Ok(rows) => Ok(rows@.map_values(|b: Vec<u8>| b@)),
        Err(e) => Err(e@),
    }
}

/// Every row that the scan gives can be read under the schema.
pub open spec fn scan_readable(
    schema: Seq<ColumnType>,
    rows: Seq<Result<Vec<u8>, DbError>>,
) -> bool {
    forall|i: int|
        0 <= i < rows.len() && (#[trigger] rows[i]) is Ok ==> row_readable(schema, rows[i]->Ok_0@)
}

/// The scan gives every row, and each of them decodes under the schema.
pub open spec fn scan_decodes(
    schema: Seq<ColumnType>,
    rows: Seq<Result<Seq<u8>, ErrorView>>,
) -> bool {
    forall|i: int|
        0 <= i < rows.len() ==> (#[trigger] rows[i]) is Ok && decoded_row(schema, rows[i]->Ok_0) is Ok
}

/// Each of `after` reads as the row of `before` in its place does, with the change made, where
/// the row format has room for it.
pub open spec fn faithful(
    change: RowChange,
    old: Seq<ColumnType>,
    new: Seq<ColumnType>,
    before: Seq<Result<Seq<u8>, ErrorView>>,
    after: Seq<Seq<u8>>,
) -> bool {
    &&& before.len() == after.len()
    &&& forall|i: int|
        0 <= i < after.len() && new.len() <= 0xffff && (#[trigger] after[i]).len() <= 0xffff ==> {
            &&& before[i] is Ok
            &&& decoded_row(old, before[i]->Ok_0) is Ok
            &&& row_readable(new, after[i])
            &&& decoded_row(new, after[i]) == Ok::<Seq<Option<DataValue>>, Seq<char>>(
                changed(change, decoded_row(old, before[i]->Ok_0)->Ok_0),
            )
            &&& change is AppendNull ==> null_in_row(after[i], old.len() as int)
        }
}

/// Rewrites the rows of a scan, in order.
pub fn migrate_rows(
    change: RowChange,
    old: &Vec<ColumnType>,
    new: &Vec<ColumnType>,
    task: &str,
    rows: &Vec<Result<Vec<u8>, DbError>>,
) -> (r: Result<Vec<Vec<u8>>, DbError>)
    requires
        scan_readable(old@, rows@),
        schema_change(change, old@, new@),
    ensures
        rows_view(r) == migrated_rows(change, old@, new@, task@, scan_views(rows@)),
        r is Ok <==> scan_decodes(old@, scan_views(rows@)),
        r is Ok ==> faithful(
            change,
            old@,
            new@,
            scan_views(rows@),
            r->Ok_0@.map_values(|b: Vec<u8>| b@),
        ),
{
    let ghost all = scan_views(rows@);
    let mut out: Vec<Vec<u8>> = Vec::new();
    let mut i: usize = 0;
    assert(out@.map_values(|b: Vec<u8>| b@) =~= Seq::<Seq<u8>>::empty());
    while i < rows.len()
        invariant
            i <= rows.len(),
            all == scan_views(rows@),
            scan_readable(old@, rows@),
            schema_change(change, old@, new@),
            scan_decodes(old@, all.take(i as int)),
            migrated_rows(change, old@, new@, task@, all.take(i as int)) == Ok::<
                Seq<Seq<u8>>,
                ErrorView,
            >(out@.map_values(|b: Vec<u8>| b@)),
            faithful(
                change,
                old@,
                new@,
                all.take(i as int),
                out@.map_values(|b: Vec<u8>| b@),
            ),
        decreases rows.len() - i,
    {
        assert(all.take(i + 1).drop_last() =~= all.take(i as int));
        assert(all.take(i + 1).last() == scan_view(rows@[i as int]));
        match &rows[i] {
            Err(e) => {
                proof {
                    lemma_first_error(change, old@, new@, task@, all, i + 1);
                    assert(all[i as int] is Err);
                }
                return Err(DbError { kind: e.kind, message: e.message.clone() });
            },
            Ok(row) => match migrate_row(change, old, new, task, row) {
                Err(e) => {
                    proof {
                        lemma_first_error(change, old@, new@, task@, all, i + 1);
                        assert(decoded_row(old@, all[i as int]->Ok_0) is Err);
                    }
                    return Err(e);
                },
                Ok(bytes) => {
                    let ghost done = out@;
                    out.push(bytes);
                    assert(out@.map_values(|b: Vec<u8>| b@) =~= done.map_values(
                        |b: Vec<u8>| b@,
                    ).push(bytes@));
                    proof {
                        let old_views = done.map_values(|b: Vec<u8>| b@);
                        let views = out@.map_values(|b: Vec<u8>| b@);
                        let before = all.take(i as int);
                        let more = all.take(i + 1);
                        assert forall|j: int|
                            0 <= j < views.len() && new@.len() <= 0xffff && (
                            #[trigger] views[j]).len() <= 0xffff implies {
                            &&& more[j] is Ok
                            &&& decoded_row(old@, more[j]->Ok_0) is Ok
                            &&& row_readable(new@, views[j])
                            &&& decoded_row(new@, views[j]) == Ok::<
                                Seq<Option<DataValue>>,
                                Seq<char>,
                            >(changed(change, decoded_row(old@, more[j]->Ok_0)->Ok_0))
                            &&& change is AppendNull ==> null_in_row(views[j], old@.len() as int)
                        } by {
                            if j < i {
                                assert(views[j] == old_views[j]);
                                assert(more[j] == before[j]);
                            } else {
                                assert(views[j] == bytes@);
                                assert(more[j] == scan_view(rows@[i as int]));
                            }
                        }
                        assert forall|j: int| 0 <= j < more.len() implies (#[trigger] more[j]) is Ok
                            && decoded_row(old@, more[j]->Ok_0) is Ok by {
                            if j < i {
                                assert(more[j] == before[j]);
                            }
                        }
                    }
                },
            },
        }
        i = i + 1;
    }
    assert(all.take(i as int) =~= all);
    Ok(out)
}

/// Whether every row that a scan gives can be read under the schema.
pub fn scan_is_readable(schema: &Vec<ColumnType>, rows: &Vec<Result<Vec<u8>, DbError>>) -> (r: bool)
    ensures
        r == scan_readable(schema@, rows@),
{
    let mut i: usize = 0;
    while i < rows.len()
        invariant
            i <= rows.len(),
            forall|j: int|
                0 <= j < i && (#[trigger] rows@[j]) is Ok ==> row_readable(
                    schema@,
                    rows@[j]->Ok_0@,
                ),
        decreases rows.len() - i,
    {
        if let Ok(row) = &rows[i] {
            if !row_is_readable(schema, row) {
                assert(!row_readable(schema@, rows@[i as int]->Ok_0@));
                return false;
            }
        }
        i = i + 1;
    }
    true
}

/// `after` is what the row `before` becomes: its values, read under the old schema, with `NULL`
/// behind them or without the one at the removed position, written under the new schema.
pub open spec fn becomes(
    change: RowChange,
    old: Seq<ColumnType>,
    new: Seq<ColumnType>,
    before: Result<Seq<u8>, ErrorView>,
    after: Seq<u8>,
) -> bool {
    let values = decoded_row(old, before->Ok_0)->Ok_0;
    &&& before is Ok
    &&& decoded_row(old, before->Ok_0) is Ok
    &&& change is AppendNull ==> encoded_row(new, values.push(None)) == Ok::<Seq<u8>, Seq<char>>(
        after,
    )
    &&& (change matches RowChange::Remove(p) ==> p < values.len() ==> encoded_row(
        new,
        values.take(p as int) + values.skip(p + 1),
    ) == Ok::<Seq<u8>, Seq<char>>(after))
}

/// Rewritten rows are as many as the scan gave, in its order, and each is what its own row becomes.
pub proof fn law_every_row_is_rewritten(
    change: RowChange,
    old: Seq<ColumnType>,
    new: Seq<ColumnType>,
    task: Seq<char>,
    rows: Seq<Result<Seq<u8>, ErrorView>>,
)
    requires
        migrated_rows(change, old, new, task, rows) is Ok,
    ensures
        migrated_rows(change, old, new, task, rows)->Ok_0.len() == rows.len(),
        forall|i: int|
            0 <= i < rows.len() ==> becomes(
                change,
                old,
                new,
                rows[i],
                #[trigger] migrated_rows(change, old, new, task, rows)->Ok_0[i],
            ),
    decreases rows.len(),
{
    if rows.len() > 0 {
        let front = rows.drop_last();
        law_every_row_is_rewritten(change, old, new, task, front);
        let before = migrated_rows(change, old, new, task, front)->Ok_0;
        let done = migrated_rows(change, old, new, task, rows)->Ok_0;
        assert(done == before.push(done.last()));
        assert forall|i: int| 0 <= i < rows.len() implies becomes(
            change,
            old,
            new,
            rows[i],
            #[trigger] done[i],
        ) by {
            if i < front.len() {
                assert(front[i] == rows[i]);
                assert(before[i] == done[i]);
            } else {
                let values = decoded_row(old, rows[i]->Ok_0)->Ok_0;
                if let RowChange::Remove(p) = change {
                    if p < values.len() {
                        assert(values.remove(p as int) =~= values.take(p as int) + values.skip(
                            p + 1,
                        ));
                    }
                }
            }
        }
    }
}

/// The first row that fails ends the rewriting with its own error, whatever comes behind it.
pub proof fn law_first_failure_ends_the_rewriting(
    change: RowChange,
    old: Seq<ColumnType>,
    new: Seq<ColumnType>,
    task: Seq<char>,
    rows: Seq<Result<Seq<u8>, ErrorView>>,
    i: int,
)
    requires
        0 <= i < rows.len(),
        migrated_rows(change, old, new, task, rows.take(i)) is Ok,
        rows[i] is Err || decoded_row(old, rows[i]->Ok_0) is Err,
    ensures
        ({
            let result = migrated_rows(change, old, new, task, rows);
            &&& result is Err
            &&& rows[i] is Err ==> result->Err_0 == rows[i]->Err_0
            &&& rows[i] is Ok ==> result->Err_0 == (ErrorView {
                kind: ErrorKind::InvalidData,
                message: "Failed to deserialize row during "@ + task + ": "@ + decoded_row(
                    old,
                    rows[i]->Ok_0,
                )->Err_0,
            })
        }),
{
    assert(rows.take(i + 1).drop_last() =~= rows.take(i));
    assert(rows.take(i + 1).last() == rows[i]);
    lemma_first_error(change, old, new, task, rows, i + 1);
}

/// The null flag of a column is its own bit: eight columns to the byte, behind the four bytes of
/// the header, the first of them the lowest.
pub proof fn law_null_flag_is_one_bit(row: Seq<u8>, i: int)
    requires
        row.len() >= 4,
        0 <= i < row[0] + 256 * row[1],
        row.len() >= 4 + (row[0] + 256 * row[1] + 7) / 8,
    ensures
        null_in_row(row, i) == ((row[4 + i / 8] >> ((i % 8) as u8)) & 1u8 == 1u8),
{
    assert(row.skip(4)[i / 8] == row[4 + i / 8]);
    let b = row[4 + i / 8];
    let n = (i % 8) as u8;
    assert((b & (1u8 << n) != 0) == ((b >> n) & 1u8 == 1u8)) by (bit_vector)
        requires
            n < 8,
    ;
}

/// A row holds an offset for every `VARCHAR` column of its schema, and for no other.
pub proof fn law_varchar_columns_have_offsets(schema: Seq<ColumnType>, ty: ColumnType)
    ensures
        varlen_count(Seq::empty()) == 0,
        ty is Varchar ==> varlen_count(schema.push(ty)) == varlen_count(schema) + 1,
        !(ty is Varchar) ==> varlen_count(schema.push(ty)) == varlen_count(schema),
{
    assert(schema.push(ty).drop_last() =~= schema);
}

/// The offsets of a readable row stand behind its header and its bitmap, two bytes each, the lower
/// one first; they lie inside the row, and those that are not `0` ascend.
pub proof fn law_offsets_of_a_readable_row(schema: Seq<ColumnType>, row: Seq<u8>, i: int, j: int)
    requires
        row_readable(schema, row),
        row.len() >= 4 + (schema.len() + 7) / 8 + 2 * varlen_count(schema),
        0 <= i < j < varlen_count(schema),
    ensures
        ({
            let at = 4 + (schema.len() + 7) / 8;
            let a = row[at + 2 * i] + 256 * row[at + 2 * i + 1];
            let b = row[at + 2 * j] + 256 * row[at + 2 * j + 1];
            &&& a <= row.len()
            &&& b <= row.len()
            &&& a != 0 && b != 0 ==> a <= b
        }),
{
    let table = 4 + bitmap_len(schema.len());
    assert(u16_at(row, table + 2 * i) <= row.len());
    assert(u16_at(row, table + 2 * j) <= row.len());
}

/// A row too short for its header, its bitmap or its flag has no `NULL` flag.
pub proof fn law_no_flag_without_its_bit(row: Seq<u8>, i: int)
    ensures
        row.len() < 4 ==> !null_in_row(row, i),
        row.len() >= 4 && i >= row[0] + 256 * row[1] ==> !null_in_row(row, i),
        row.len() >= 4 && row.len() < 4 + (row[0] + 256 * row[1] + 7) / 8 ==> !null_in_row(row, i),
{
}

} // verus!
