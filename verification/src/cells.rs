//! The type mapper: the fixed table between the remote store's column
//! types and the engine's tagged value cells, the outbound conversion for
//! writes, and the literal rendering of a cell for statement text.

use vstd::prelude::*;
use vstd::string::StringExecFns;
use crate::text;

verus! {

/// One column value in the engine's universe.
///
/// Floating-point values are carried as their IEEE-754 bit patterns, so
/// the mapper moves them without touching their numeric interpretation;
/// a timestamp is carried as nanoseconds since the Unix epoch.
#[derive(Debug, Clone, PartialEq)]
pub enum Cell {
    Bool(bool),
    I16(i16),
    I32(i32),
    I64(i64),
    /// A 32-bit float as its IEEE-754 bit pattern.
    F32(u32),
    /// A 64-bit float as its IEEE-754 bit pattern.
    F64(u64),
    Text(String),
    /// Nanoseconds since the Unix epoch.
    Timestamp(i64),
    /// The absent marker.
    Null,
}

/// One value of the remote store, tagged with its column type.
///
/// Floats are carried as IEEE-754 bit patterns and a date-time as
/// nanoseconds since the Unix epoch; `Other` stands for any column type
/// outside the mapping table and carries that type's name.
#[derive(Debug, Clone, PartialEq)]
pub enum RemoteValue {
    UInt8(u8),
    Int16(i16),
    Int32(i32),
    UInt32(u32),
    UInt64(u64),
    Int64(i64),
    /// A 32-bit float as its IEEE-754 bit pattern.
    Float32(u32),
    /// A 64-bit float as its IEEE-754 bit pattern.
    Float64(u64),
    Text(String),
    /// A date-time of any precision, as nanoseconds since the Unix epoch.
    DateTime(i64),
    /// A column type outside the mapping table, by name.
    Other(String),
}

/// A structured error reported to the host, each variant carrying a
/// human-readable message.
#[derive(Debug, Clone, PartialEq)]
pub enum FdwError {
    ConnectionFailure(String),
    QueryExecutionFailure(String),
    UnsupportedDataType(String),
    ConfigurationMissing(String),
}

/// The mathematical shape of an [`FdwError`]: the same variants over
/// character sequences.
pub enum FdwErrorV {
    ConnectionFailure(Seq<char>),
    QueryExecutionFailure(Seq<char>),
    UnsupportedDataType(Seq<char>),
    ConfigurationMissing(Seq<char>),
}

impl DeepView for FdwError {
    type V = FdwErrorV;

    open spec fn deep_view(&self) -> FdwErrorV {
        match self {
            FdwError::ConnectionFailure(m) => FdwErrorV::ConnectionFailure(m@),
            FdwError::QueryExecutionFailure(m) => FdwErrorV::QueryExecutionFailure(m@),
            FdwError::UnsupportedDataType(m) => FdwErrorV::UnsupportedDataType(m@),
            FdwError::ConfigurationMissing(m) => FdwErrorV::ConfigurationMissing(m@),
        }
    }
}

/// The inbound mapping table: the cell a remote value becomes, or `None`
/// for a column type outside the table.
///
/// An unsigned 32-bit value widens to a 64-bit integer; an unsigned
/// 64-bit value is reinterpreted, so values above the signed range alias
/// negative ones.
pub open spec fn cell_of(v: RemoteValue) -> Option<Cell> {
    match v {
        RemoteValue::UInt8(x) => Some(Cell::Bool(x != 0)),
        RemoteValue::Int16(x) => Some(Cell::I16(x)),
        RemoteValue::Int32(x) => Some(Cell::I32(x)),
        RemoteValue::UInt32(x) => Some(Cell::I64(x as i64)),
        RemoteValue::UInt64(x) => Some(Cell::I64(x as i64)),
        RemoteValue::Int64(x) => Some(Cell::I64(x)),
        RemoteValue::Float32(b) => Some(Cell::F32(b)),
        RemoteValue::Float64(b) => Some(Cell::F64(b)),
        RemoteValue::Text(s) => Some(Cell::Text(s)),
        RemoteValue::DateTime(n) => Some(Cell::Timestamp(n)),
        RemoteValue::Other(_) => None,
    }
}

/// The name of a remote value's column type, for error messages.
pub open spec fn remote_type_name(v: RemoteValue) -> Seq<char> {
    match v {
        RemoteValue::UInt8(_) => "UInt8"@,
        RemoteValue::Int16(_) => "Int16"@,
        RemoteValue::Int32(_) => "Int32"@,
        RemoteValue::UInt32(_) => "UInt32"@,
        RemoteValue::UInt64(_) => "UInt64"@,
        RemoteValue::Int64(_) => "Int64"@,
        RemoteValue::Float32(_) => "Float32"@,
        RemoteValue::Float64(_) => "Float64"@,
        RemoteValue::Text(_) => "String"@,
        RemoteValue::DateTime(_) => "DateTime"@,
        RemoteValue::Other(s) => s@,
    }
}

/// The message of the error an unmapped column type raises.
pub open spec fn unsupported_type_msg(name: Seq<char>) -> Seq<char> {
    "data type "@ + name + " is not supported"@
}

/// Maps one remote value into the engine's cell under the fixed table;
/// a column type outside the table fails with `UnsupportedDataType`.
pub fn to_cell(v: &RemoteValue) -> (r: Result<Cell, FdwError>)
    ensures
        r is Ok <==> cell_of(*v) is Some,
        r is Ok ==> r->Ok_0 == cell_of(*v)->Some_0,
        r is Err ==> r->Err_0.deep_view() == FdwErrorV::UnsupportedDataType(
            unsupported_type_msg(remote_type_name(*v)),
        ),
{
    match v {
        RemoteValue::UInt8(x) => Ok(Cell::Bool(*x != 0)),
        RemoteValue::Int16(x) => Ok(Cell::I16(*x)),
        RemoteValue::Int32(x) => Ok(Cell::I32(*x)),
        RemoteValue::UInt32(x) => Ok(Cell::I64(*x as i64)),
        RemoteValue::UInt64(x) => Ok(Cell::I64(*x as i64)),
        RemoteValue::Int64(x) => Ok(Cell::I64(*x)),
        RemoteValue::Float32(b) => Ok(Cell::F32(*b)),
        RemoteValue::Float64(b) => Ok(Cell::F64(*b)),
        RemoteValue::Text(s) => Ok(Cell::Text(s.clone())),
        RemoteValue::DateTime(n) => Ok(Cell::Timestamp(*n)),
        RemoteValue::Other(s) => {
            proof {
                reveal_strlit("data type ");
                reveal_strlit(" is not supported");
            }
            let mut m = "data type ".to_owned();
            m.append(s.as_str());
            m.append(" is not supported");
            Err(FdwError::UnsupportedDataType(m))
        },
    }
}

/// The outbound mapping: the remote value a cell is sent as, or `None`
/// for a cell variant the write path does not support.
pub open spec fn remote_of(c: Cell) -> Option<RemoteValue> {
    match c {
        Cell::Bool(b) => Some(RemoteValue::UInt8(if b { 1u8 } else { 0u8 })),
        Cell::F64(bits) => Some(RemoteValue::Float64(bits)),
        Cell::I64(v) => Some(RemoteValue::Int64(v)),
        Cell::Text(s) => Some(RemoteValue::Text(s)),
        _ => None,
    }
}

/// The name of a cell's variant, for error messages.
pub open spec fn cell_kind_name(c: Cell) -> Seq<char> {
    match c {
        Cell::Bool(_) => "Bool"@,
        Cell::I16(_) => "I16"@,
        Cell::I32(_) => "I32"@,
        Cell::I64(_) => "I64"@,
        Cell::F32(_) => "F32"@,
        Cell::F64(_) => "F64"@,
        Cell::Text(_) => "Text"@,
        Cell::Timestamp(_) => "Timestamp"@,
        Cell::Null => "Null"@,
    }
}

/// The message of the error an outbound-unsupported cell raises.
pub open spec fn unsupported_field_msg(kind: Seq<char>) -> Seq<char> {
    "field type "@ + kind + " not supported"@
}

fn unsupported_field_err(kind: &str) -> (r: FdwError)
    ensures
        r.deep_view() == FdwErrorV::UnsupportedDataType(unsupported_field_msg(kind@)),
{
    proof {
        reveal_strlit("field type ");
        reveal_strlit(" not supported");
    }
    let mut m = "field type ".to_owned();
    m.append(kind);
    m.append(" not supported");
    FdwError::UnsupportedDataType(m)
}

/// The error an outbound-unsupported or unrenderable cell raises, named
/// after the cell's variant.
pub fn unsupported_field_error(c: &Cell) -> (r: FdwError)
    ensures
        r.deep_view() == FdwErrorV::UnsupportedDataType(unsupported_field_msg(cell_kind_name(*c))),
{
    match c {
        Cell::Bool(_) => {
            proof {
                reveal_strlit("Bool");
            }
            unsupported_field_err("Bool")
        },
        Cell::I16(_) => {
            proof {
                reveal_strlit("I16");
            }
            unsupported_field_err("I16")
        },
        Cell::I32(_) => {
            proof {
                reveal_strlit("I32");
            }
            unsupported_field_err("I32")
        },
        Cell::I64(_) => {
            proof {
                reveal_strlit("I64");
            }
            unsupported_field_err("I64")
        },
        Cell::F32(_) => {
            proof {
                reveal_strlit("F32");
            }
            unsupported_field_err("F32")
        },
        Cell::F64(_) => {
            proof {
                reveal_strlit("F64");
            }
            unsupported_field_err("F64")
        },
        Cell::Text(_) => {
            proof {
                reveal_strlit("Text");
            }
            unsupported_field_err("Text")
        },
        Cell::Timestamp(_) => {
            proof {
                reveal_strlit("Timestamp");
            }
            unsupported_field_err("Timestamp")
        },
        Cell::Null => {
            proof {
                reveal_strlit("Null");
            }
            unsupported_field_err("Null")
        },
    }
}

/// Maps one cell back into a remote value for a write; only the
/// outbound-supported variants succeed, any other fails with
/// `UnsupportedDataType`.
pub fn to_remote_value(c: &Cell) -> (r: Result<RemoteValue, FdwError>)
    ensures
        r is Ok <==> remote_of(*c) is Some,
        r is Ok ==> r->Ok_0 == remote_of(*c)->Some_0,
        r is Err ==> r->Err_0.deep_view() == FdwErrorV::UnsupportedDataType(
            unsupported_field_msg(cell_kind_name(*c)),
        ),
{
    match c {
        Cell::Bool(b) => Ok(RemoteValue::UInt8(if *b { 1 } else { 0 })),
        Cell::F64(bits) => Ok(RemoteValue::Float64(*bits)),
        Cell::I64(v) => Ok(RemoteValue::Int64(*v)),
        Cell::Text(s) => Ok(RemoteValue::Text(s.clone())),
        Cell::I16(_) => Err(unsupported_field_error(c)),
        Cell::I32(_) => Err(unsupported_field_error(c)),
        Cell::F32(_) => Err(unsupported_field_error(c)),
        Cell::Timestamp(_) => Err(unsupported_field_error(c)),
        Cell::Null => Err(unsupported_field_error(c)),
    }
}

/// What the date-time formatter prints for a timestamp: the
/// second-precision calendar form of the nanosecond value, in UTC — a
/// function of that value alone.
pub uninterp spec fn ts_text(nanos: i64) -> Seq<char>;

/// Relies on chrono's `DateTime::<Utc>::from_timestamp_nanos` (total on
/// the whole 64-bit range) and `format("%Y-%m-%d %H:%M:%S")`: the text
/// depends on the nanosecond value alone — UTC, fixed pattern, no
/// locale.
#[verifier::external_body]
fn format_timestamp(nanos: i64) -> (r: String)
    ensures
        r@ == ts_text(nanos),
{
    chrono::DateTime::<chrono::Utc>::from_timestamp_nanos(nanos)
        .format("%Y-%m-%d %H:%M:%S")
        .to_string()
}

/// The textual literal of a cell in statement text, or `None` for a
/// variant without one: booleans and integers render bare, text renders
/// quoted with embedded quotes doubled, a timestamp renders as its
/// quoted calendar form, the absent marker renders as the null literal;
/// floats have no textual rendering here.
pub open spec fn literal_of(c: Cell) -> Option<Seq<char>> {
    match c {
        Cell::Null => Some("null"@),
        Cell::Bool(b) => Some(if b { "true"@ } else { "false"@ }),
        Cell::I16(v) => Some(text::dec_int(v as int)),
        Cell::I32(v) => Some(text::dec_int(v as int)),
        Cell::I64(v) => Some(text::dec_int(v as int)),
        Cell::Text(s) => Some(seq!['\''] + text::escaped(s@) + seq!['\'']),
        Cell::Timestamp(n) => Some(seq!['\''] + ts_text(n) + seq!['\'']),
        Cell::F32(_) => None,
        Cell::F64(_) => None,
    }
}

/// Renders the literal of a cell, where one is defined.
pub fn cell_literal(c: &Cell) -> (r: Option<String>)
    ensures
        r is Some <==> literal_of(*c) is Some,
        r is Some ==> r->Some_0@ == literal_of(*c)->Some_0,
{
    match c {
        Cell::Null => {
            proof {
                reveal_strlit("null");
            }
            Some("null".to_owned())
        },
        Cell::Bool(b) => {
            proof {
                reveal_strlit("true");
                reveal_strlit("false");
            }
            if *b {
                Some("true".to_owned())
            } else {
                Some("false".to_owned())
            }
        },
        Cell::I16(v) => Some(text::i64_dec(*v as i64)),
        Cell::I32(v) => Some(text::i64_dec(*v as i64)),
        Cell::I64(v) => Some(text::i64_dec(*v)),
        Cell::Text(s) => {
            proof {
                reveal_strlit("'");
                assert("'"@ =~= seq!['\'']);
            }
            let mut r = "'".to_owned();
            let esc = text::escape_quotes(s.as_str());
            r.append(esc.as_str());
            r.append("'");
            Some(r)
        },
        Cell::Timestamp(n) => {
            proof {
                reveal_strlit("'");
                assert("'"@ =~= seq!['\'']);
            }
            let mut r = "'".to_owned();
            let t = format_timestamp(*n);
            r.append(t.as_str());
            r.append("'");
            Some(r)
        },
        Cell::F32(_) => None,
        Cell::F64(_) => None,
    }
}

/// The outbound value of the inbound cell of a remote value, where both
/// mappings are defined.
pub open spec fn round_trip(v: RemoteValue) -> Option<RemoteValue> {
    match cell_of(v) {
        Some(c) => remote_of(c),
        None => None,
    }
}

/// The mapping table is a lossless round trip where the inbound cell is
/// outbound-supported: a signed 64-bit value, a 64-bit float's bit
/// pattern and a text value come back unchanged; an unsigned 32-bit
/// value comes back as the same number widened; an unsigned 64-bit value
/// comes back reinterpreted, unchanged whenever it fits the signed
/// range; a boolean's truth value is preserved.
pub proof fn lemma_mapping_round_trip(v: RemoteValue)
    ensures
        v matches RemoteValue::Int64(x) ==> round_trip(v) == Some(RemoteValue::Int64(x)),
        v matches RemoteValue::Float64(b) ==> round_trip(v) == Some(RemoteValue::Float64(b)),
        v matches RemoteValue::Text(s) ==> round_trip(v) == Some(RemoteValue::Text(s)),
        v matches RemoteValue::UInt32(x) ==> round_trip(v) == Some(
            RemoteValue::Int64(x as i64),
        ) && (x as i64) as int == x as int,
        v matches RemoteValue::UInt64(x) ==> round_trip(v) == Some(RemoteValue::Int64(x as i64))
            && (x <= i64::MAX ==> (x as i64) as int == x as int),
        v matches RemoteValue::UInt8(x) ==> round_trip(v) matches Some(w) && w matches
            RemoteValue::UInt8(y) && ((y != 0) <==> (x != 0)) && (x <= 1 ==> y == x),
{
}

} // verus!
