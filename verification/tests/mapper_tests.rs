use clickhouse_fdw::cells::Cell;
use clickhouse_fdw::cells::FdwError;
use clickhouse_fdw::cells::RemoteValue;
use clickhouse_fdw::cells::cell_literal;
use clickhouse_fdw::cells::to_cell;
use clickhouse_fdw::cells::to_remote_value;
use clickhouse_fdw::text::escape_quotes;
use clickhouse_fdw::text::i64_dec;
use clickhouse_fdw::text::join_strings;
use clickhouse_fdw::text::u64_dec;

#[test]
fn maps_every_supported_tag() {
    assert_eq!(to_cell(&RemoteValue::UInt8(5)), Ok(Cell::Bool(true)));
    assert_eq!(to_cell(&RemoteValue::UInt8(0)), Ok(Cell::Bool(false)));
    assert_eq!(to_cell(&RemoteValue::Int16(-7)), Ok(Cell::I16(-7)));
    assert_eq!(to_cell(&RemoteValue::Int32(123456)), Ok(Cell::I32(123456)));
    assert_eq!(
        to_cell(&RemoteValue::UInt32(4294967295)),
        Ok(Cell::I64(4294967295))
    );
    assert_eq!(
        to_cell(&RemoteValue::Int64(-9000000000)),
        Ok(Cell::I64(-9000000000))
    );
    let bits32 = 1.5f32.to_bits();
    assert_eq!(to_cell(&RemoteValue::Float32(bits32)), Ok(Cell::F32(bits32)));
    let bits64 = (-2.25f64).to_bits();
    assert_eq!(to_cell(&RemoteValue::Float64(bits64)), Ok(Cell::F64(bits64)));
    assert_eq!(
        to_cell(&RemoteValue::Text(String::from("abc"))),
        Ok(Cell::Text(String::from("abc")))
    );
    assert_eq!(
        to_cell(&RemoteValue::DateTime(1700000000000000000)),
        Ok(Cell::Timestamp(1700000000000000000))
    );
}

#[test]
fn unsigned_sixty_four_reinterprets() {
    assert_eq!(to_cell(&RemoteValue::UInt64(42)), Ok(Cell::I64(42)));
    assert_eq!(
        to_cell(&RemoteValue::UInt64(u64::MAX)),
        Ok(Cell::I64(-1))
    );
}

#[test]
fn unmapped_tag_reports_unsupported_type() {
    let r = to_cell(&RemoteValue::Other(String::from("Decimal128")));
    assert_eq!(
        r,
        Err(FdwError::UnsupportedDataType(String::from(
            "data type Decimal128 is not supported"
        )))
    );
}

#[test]
fn round_trip_preserves_values() {
    // A large unsigned 32-bit value widens and comes back unchanged,
    // never negative.
    let cell = to_cell(&RemoteValue::UInt32(4294967295)).unwrap();
    assert_eq!(cell, Cell::I64(4294967295));
    assert_eq!(
        to_remote_value(&cell),
        Ok(RemoteValue::Int64(4294967295))
    );

    let cell = to_cell(&RemoteValue::Int64(-5)).unwrap();
    assert_eq!(to_remote_value(&cell), Ok(RemoteValue::Int64(-5)));

    let bits = 3.25f64.to_bits();
    let cell = to_cell(&RemoteValue::Float64(bits)).unwrap();
    assert_eq!(to_remote_value(&cell), Ok(RemoteValue::Float64(bits)));

    let cell = to_cell(&RemoteValue::Text(String::from("x y"))).unwrap();
    assert_eq!(
        to_remote_value(&cell),
        Ok(RemoteValue::Text(String::from("x y")))
    );

    let cell = to_cell(&RemoteValue::UInt8(1)).unwrap();
    assert_eq!(to_remote_value(&cell), Ok(RemoteValue::UInt8(1)));
    let cell = to_cell(&RemoteValue::UInt8(0)).unwrap();
    assert_eq!(to_remote_value(&cell), Ok(RemoteValue::UInt8(0)));
}

#[test]
fn outbound_rejects_unsupported_variants() {
    assert_eq!(
        to_remote_value(&Cell::I16(3)),
        Err(FdwError::UnsupportedDataType(String::from(
            "field type I16 not supported"
        )))
    );
    assert_eq!(
        to_remote_value(&Cell::Timestamp(12)),
        Err(FdwError::UnsupportedDataType(String::from(
            "field type Timestamp not supported"
        )))
    );
}

#[test]
fn literals_render_exactly() {
    assert_eq!(cell_literal(&Cell::Null).unwrap(), "null");
    assert_eq!(cell_literal(&Cell::Bool(true)).unwrap(), "true");
    assert_eq!(cell_literal(&Cell::Bool(false)).unwrap(), "false");
    assert_eq!(cell_literal(&Cell::I16(-3)).unwrap(), "-3");
    assert_eq!(cell_literal(&Cell::I32(0)).unwrap(), "0");
    assert_eq!(cell_literal(&Cell::I64(i64::MIN)).unwrap(), "-9223372036854775808");
    assert_eq!(
        cell_literal(&Cell::Text(String::from("O'Brien"))).unwrap(),
        "'O''Brien'"
    );
    assert!(cell_literal(&Cell::F64(1.0f64.to_bits())).is_none());
    assert!(cell_literal(&Cell::F32(1.0f32.to_bits())).is_none());
}

#[test]
fn timestamp_literal_renders_calendar_form() {
    assert_eq!(
        cell_literal(&Cell::Timestamp(0)).unwrap(),
        "'1970-01-01 00:00:00'"
    );
    assert_eq!(
        cell_literal(&Cell::Timestamp(1662921288000000000)).unwrap(),
        "'2022-09-11 18:34:48'"
    );
}

#[test]
fn decimal_rendering_matches_std() {
    assert_eq!(u64_dec(0), "0");
    assert_eq!(u64_dec(10), "10");
    assert_eq!(u64_dec(u64::MAX), u64::MAX.to_string());
    assert_eq!(i64_dec(-1), "-1");
    assert_eq!(i64_dec(9070), "9070");
    assert_eq!(i64_dec(i64::MIN), i64::MIN.to_string());
    assert_eq!(i64_dec(i64::MAX), i64::MAX.to_string());
}

#[test]
fn join_and_escape() {
    let parts = vec![String::from("a"), String::from("b"), String::from("c")];
    assert_eq!(join_strings(&parts, ", "), "a, b, c");
    let one = vec![String::from("only")];
    assert_eq!(join_strings(&one, " and "), "only");
    let none: Vec<String> = Vec::new();
    assert_eq!(join_strings(&none, ", "), "");
    assert_eq!(escape_quotes("it's an 'x'"), "it''s an ''x''");
    assert_eq!(escape_quotes("plain"), "plain");
    assert_eq!(escape_quotes(""), "");
}
