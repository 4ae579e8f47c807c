//! Column types and column values.
//!
//! `ColumnType` is the library's own description of a SQL type. A value is the storage engine's
//! `DataValue`: the library carries values through. What the engine computes of them has a name
//! here.

use vstd::prelude::*;
use storage_manager::types::DataType as EngineType;
use storage_manager::types::DataValue;

verus! {

/// A SQL column type.
#[derive(Debug, Clone, Copy, PartialEq, Eq, Structural)]
pub enum ColumnType {
    SmallInt,
    Int,
    BigInt,
    Real,
    DoublePrecision,
    Numeric { precision: u8, scale: u8 },
    Decimal { precision: u8, scale: u8 },
    Bool,
    Char(u16),
    Character(u16),
    Varchar(u16),
    Date,
    Time,
    Bit(u16),
    Timestamp,
}

/// The storage engine's column type: `storage_manager::types::DataType`.
#[verifier::external_type_specification]
#[verifier::external_body]
pub struct ExEngineType(storage_manager::types::DataType);

/// The storage engine's column value: `storage_manager::types::DataValue`.
#[verifier::external_type_specification]
#[verifier::external_body]
pub struct ExDataValue(storage_manager::types::DataValue);

/// The engine's form of a type, variant for variant.
#[verifier::external_body]
pub(crate) fn to_engine(t: &ColumnType) -> EngineType {
    match *t {
        ColumnType::SmallInt => EngineType::SmallInt,
        ColumnType::Int => EngineType::Int,
        ColumnType::BigInt => EngineType::BigInt, ColumnType::Real => EngineType::Real,
        ColumnType::DoublePrecision => EngineType::DoublePrecision,
        ColumnType::Numeric { precision, scale } => EngineType::Numeric { precision, scale },
        ColumnType::Decimal { precision, scale } => EngineType::Decimal { precision, scale },
        ColumnType::Bool => EngineType::Bool, ColumnType::Char(n) => EngineType::Char(n),
        ColumnType::Character(n) => EngineType::Character(n),
        ColumnType::Varchar(n) => EngineType::Varchar(n), ColumnType::Date => EngineType::Date,
        ColumnType::Time => EngineType::Time, ColumnType::Bit(n) => EngineType::Bit(n),
        ColumnType::Timestamp => EngineType::Timestamp,
    }
}

/// The library's form of an engine type, variant for variant.
#[verifier::external_body]
pub(crate) fn from_engine(t: EngineType) -> ColumnType {
    match t {
        EngineType::SmallInt => ColumnType::SmallInt,
        EngineType::Int => ColumnType::Int,
        EngineType::BigInt => ColumnType::BigInt, EngineType::Real => ColumnType::Real,
        EngineType::DoublePrecision => ColumnType::DoublePrecision,
        EngineType::Numeric { precision, scale } => ColumnType::Numeric { precision, scale },
        EngineType::Decimal { precision, scale } => ColumnType::Decimal { precision, scale },
        EngineType::Bool => ColumnType::Bool, EngineType::Char(n) => ColumnType::Char(n),
        EngineType::Character(n) => ColumnType::Character(n),
        EngineType::Varchar(n) => ColumnType::Varchar(n), EngineType::Date => ColumnType::Date,
        EngineType::Time => ColumnType::Time, EngineType::Bit(n) => ColumnType::Bit(n),
        EngineType::Timestamp => ColumnType::Timestamp,
    }
}

/// What `storage_manager::types::DataType::from_str` makes of a type's text.
pub uninterp spec fn parsed_type(text: Seq<char>) -> Result<ColumnType, Seq<char>>;

/// Reads a type's text: `storage_manager::types::DataType::from_str`. The result depends on the
/// text alone.
#[verifier::external_body]
pub(crate) fn parse_type(text: &str) -> (r: Result<ColumnType, String>)
    ensures
        match r {
            Ok(t) => parsed_type(text@) == Ok::<ColumnType, Seq<char>>(t),
            Err(e) => parsed_type(text@) == Err::<ColumnType, Seq<char>>(e@),
        },
{
    text.parse::<EngineType>().map(from_engine)
}

/// The bytes that `storage_manager::types::DataValue::parse_and_encode` makes of a literal.
pub uninterp spec fn encoded_literal(ty: ColumnType, literal: Seq<char>) -> Result<
    Seq<u8>,
    Seq<char>,
>;

/// Encodes a literal as a value of a type: `storage_manager::types::DataValue::parse_and_encode`.
/// The result depends on the type and the literal alone.
#[verifier::external_body]
pub(crate) fn encode_literal(ty: ColumnType, literal: &str) -> (r: Result<Vec<u8>, String>)
    ensures
        match r {
            Ok(bytes) => encoded_literal(ty, literal@) == Ok::<Seq<u8>, Seq<char>>(bytes@),
            Err(e) => encoded_literal(ty, literal@) == Err::<Seq<u8>, Seq<char>>(e@),
        },
{
    DataValue::parse_and_encode(&to_engine(&ty), literal)
}

/// What `storage_manager::types::DataValue::from_bytes` makes of a value's bytes.
pub uninterp spec fn decoded_value(ty: ColumnType, bytes: Seq<u8>) -> Result<DataValue, Seq<char>>;

/// Decodes a value of a type: `storage_manager::types::DataValue::from_bytes`. The result depends
/// on the type and the bytes alone. A coefficient is read as a sign and a 128-bit magnitude, so it
/// is never the least one.
#[verifier::external_body]
pub(crate) fn decode_value(ty: ColumnType, bytes: &Vec<u8>) -> (r: Result<DataValue, String>)
    ensures
        match r {
            Ok(v) => decoded_value(ty, bytes@) == Ok::<DataValue, Seq<char>>(v) && has_text(v),
            Err(e) => decoded_value(ty, bytes@) == Err::<DataValue, Seq<char>>(e@),
        },
{
    DataValue::from_bytes(&to_engine(&ty), bytes)
}

/// The text in which `storage_manager::types::DataValue` displays itself.
pub uninterp spec fn value_text(v: DataValue) -> Seq<char>;

/// The coefficient that a `storage_manager::types::DataValue` holds: field `unscaled` of a
/// `NUMERIC` value. Values of other types hold none.
pub uninterp spec fn numeric_coefficient(v: DataValue) -> Option<i128>;

/// Reads the coefficient out of a `storage_manager::types::DataValue`, variant for variant.
#[verifier::external_body]
pub(crate) fn coefficient(v: &DataValue) -> (r: Option<i128>)
    ensures
        r == numeric_coefficient(*v),
{
    match v {
        DataValue::Numeric(n) => Some(n.unscaled),
        DataValue::SmallInt(_) | DataValue::Int(_) | DataValue::BigInt(_) => None,
        DataValue::Real(_) | DataValue::DoublePrecision(_) | DataValue::Bool(_) => None,
        DataValue::Char(_) | DataValue::Varchar(_) | DataValue::Bit(_) => None,
        DataValue::Date(_) | DataValue::Time(_) | DataValue::Timestamp(_) => None,
    }
}

/// The value has a text. The least 128-bit coefficient has no magnitude of its own width, and so
/// no text.
pub open spec fn has_text(v: DataValue) -> bool {
    numeric_coefficient(v) != Some(i128::MIN)
}

/// Whether a value has a text.
pub fn value_has_text(v: &DataValue) -> (r: bool)
    ensures
        r == has_text(*v),
{
    match coefficient(v) {
        Some(n) => n != i128::MIN,
        None => true,
    }
}

/// Displays a value: `storage_manager::types::DataValue::to_string`. The text depends on the
/// value alone. The engine takes the magnitude of a coefficient in 128 bits, which overflows for
/// the least of them, so the value must have a text.
#[verifier::external_body]
pub(crate) fn show_value(v: &DataValue) -> (r: String)
    requires
        has_text(*v),
    ensures
        r@ == value_text(*v),
{
    v.to_string()
}

/// The value that a literal stands for as a value of a type; none where it stands for none.
pub open spec fn literal_value(ty: ColumnType, literal: Seq<char>) -> Option<DataValue> {
    match encoded_literal(ty, literal) {
        Err(_) => None,
        Ok(bytes) => match decoded_value(ty, bytes) {
            Err(_) => None,
            Ok(v) => Some(v),
        },
    }
}

/// Reads a literal as a value of a type. What it stands for has a text.
pub fn parse_literal(ty: ColumnType, literal: &str) -> (r: Option<DataValue>)
    ensures
        r == literal_value(ty, literal@),
        r is Some ==> has_text(r->0),
{
    match encode_literal(ty, literal) {
        Err(_) => None,
        Ok(bytes) => match decode_value(ty, &bytes) {
            Err(_) => None,
            Ok(v) => Some(v),
        },
    }
}

/// A literal stands for the value that its encoding decodes to, of the same type, and for none where
/// either step fails.
pub proof fn law_literal_stands_for_its_encoding(ty: ColumnType, literal: Seq<char>)
    ensures
        encoded_literal(ty, literal) matches Ok(bytes) ==> (decoded_value(ty, bytes) matches Ok(v)
            ==> literal_value(ty, literal) == Some(v)),
        encoded_literal(ty, literal) matches Ok(bytes) ==> (decoded_value(ty, bytes) is Err
            ==> literal_value(ty, literal) is None),
        encoded_literal(ty, literal) is Err ==> literal_value(ty, literal) is None,
{
}

/// Every value but a `NUMERIC` of the least coefficient has a text.
pub proof fn law_all_but_one_coefficient_have_a_text(v: DataValue)
    ensures
        numeric_coefficient(v) is None ==> has_text(v),
        numeric_coefficient(v) matches Some(n) ==> (has_text(v) <==> n
            != -0x8000_0000_0000_0000_0000_0000_0000_0000),
{
}

} // verus!
