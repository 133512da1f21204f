use clickhouse_fdw::block::ResultBlock;
use clickhouse_fdw::block::ResultColumn;
use clickhouse_fdw::cells::Cell;
use clickhouse_fdw::cells::FdwError;
use clickhouse_fdw::cells::RemoteValue;
use clickhouse_fdw::fdw::ClickHouseFdw;
use clickhouse_fdw::qual::Qual;
use clickhouse_fdw::row::Row;

fn opts(table: &str, rowid: &str) -> Vec<(String, String)> {
    vec![
        (String::from("conn_string"), String::from("tcp://localhost:9000")),
        (String::from("table"), String::from(table)),
        (String::from("rowid_column"), String::from(rowid)),
    ]
}

fn two_row_block() -> ResultBlock {
    let cols = vec![
        ResultColumn {
            name: String::from("id"),
            values: vec![RemoteValue::Int64(1), RemoteValue::Int64(2)],
        },
        ResultColumn {
            name: String::from("name"),
            values: vec![
                RemoteValue::Text(String::from("a")),
                RemoteValue::Text(String::from("b")),
            ],
        },
    ];
    ResultBlock::new(2, cols).unwrap()
}

#[test]
fn deparse_without_qualifiers() {
    let mut fdw = ClickHouseFdw::new(true);
    let columns = vec![String::from("id"), String::from("name")];
    let quals: Vec<Qual> = Vec::new();
    let sql = fdw
        .prepare_estimate(&quals, &columns, &opts("events", "id"))
        .unwrap();
    assert_eq!(sql, "select id, name from events");
    assert!(fdw.take_errors().is_empty());
}

#[test]
fn deparse_joins_qualifiers_with_and() {
    let mut fdw = ClickHouseFdw::new(true);
    let columns = vec![String::from("id")];
    let quals = vec![
        Qual {
            field: String::from("id"),
            operator: String::from("="),
            value: Cell::I64(42),
        },
        Qual {
            field: String::from("name"),
            operator: String::from("<>"),
            value: Cell::Text(String::from("a'b")),
        },
        Qual {
            field: String::from("live"),
            operator: String::from("="),
            value: Cell::Bool(true),
        },
    ];
    let sql = fdw
        .prepare_estimate(&quals, &columns, &opts("events", "id"))
        .unwrap();
    assert_eq!(
        sql,
        "select id from events where id = 42 and name <> 'a''b' and live = true"
    );
}

#[test]
fn qualifier_renders_on_its_own() {
    let q = Qual {
        field: String::from("id"),
        operator: String::from(">"),
        value: Cell::I64(-3),
    };
    assert_eq!(q.deparse().unwrap(), "id > -3");
    let bad = Qual {
        field: String::from("w"),
        operator: String::from("="),
        value: Cell::F64(1.5f64.to_bits()),
    };
    assert!(bad.deparse().is_none());
}

#[test]
fn blank_table_estimates_zero_without_query() {
    let mut fdw = ClickHouseFdw::new(true);
    let columns = vec![String::from("id")];
    let quals: Vec<Qual> = Vec::new();
    assert!(fdw
        .prepare_estimate(&quals, &columns, &opts("", "id"))
        .is_none());
    assert_eq!(
        fdw.take_errors(),
        vec![FdwError::ConfigurationMissing(String::from(
            "required option table is not specified"
        ))]
    );

    assert!(fdw
        .prepare_estimate(&quals, &columns, &opts("events", ""))
        .is_none());
    assert_eq!(
        fdw.take_errors(),
        vec![FdwError::ConfigurationMissing(String::from(
            "required option rowid_column is not specified"
        ))]
    );
}

#[test]
fn blank_modify_session_reports_and_stays_inert() {
    let mut fdw = ClickHouseFdw::new(true);
    fdw.begin_modify(&opts("", "id"));
    assert_eq!(
        fdw.take_errors(),
        vec![FdwError::ConfigurationMissing(String::from(
            "required option table is not specified"
        ))]
    );
    let mut row = Row::new();
    row.push("name", Some(Cell::Text(String::from("n"))));
    assert!(fdw.insert(&row).is_none());
    assert!(fdw.update(&Cell::I64(1), &row).is_none());
    assert!(fdw.delete(&Cell::I64(1)).is_none());
    assert!(fdw.take_errors().is_empty());

    fdw.begin_modify(&opts("events", ""));
    assert_eq!(
        fdw.take_errors(),
        vec![FdwError::ConfigurationMissing(String::from(
            "required option rowid_column is not specified"
        ))]
    );
    assert!(fdw.insert(&row).is_none());
    assert!(fdw.update(&Cell::I64(1), &row).is_none());
    assert!(fdw.delete(&Cell::I64(1)).is_none());
    assert!(fdw.take_errors().is_empty());
}

#[test]
fn missing_options_report_configuration() {
    let mut fdw = ClickHouseFdw::new(true);
    let columns = vec![String::from("id")];
    let quals: Vec<Qual> = Vec::new();
    let bare: Vec<(String, String)> = Vec::new();
    assert!(fdw.prepare_estimate(&quals, &columns, &bare).is_none());
    let errors = fdw.take_errors();
    assert_eq!(
        errors,
        vec![
            FdwError::ConfigurationMissing(String::from(
                "required option table is not specified"
            )),
            FdwError::ConfigurationMissing(String::from(
                "required option rowid_column is not specified"
            )),
        ]
    );
}

#[test]
fn scan_yields_each_row_then_ends() {
    let mut fdw = ClickHouseFdw::new(true);
    let columns = vec![String::from("id"), String::from("name")];
    let quals: Vec<Qual> = Vec::new();
    let sql = fdw
        .prepare_estimate(&quals, &columns, &opts("events", "id"))
        .unwrap();
    assert_eq!(sql, "select id, name from events");

    let (rows, width) = fdw.absorb_result(two_row_block());
    assert_eq!((rows, width), (2, 16));

    fdw.begin_scan();
    let first = fdw.iter_scan().unwrap();
    let mut expected = Row::new();
    expected.push("id", Some(Cell::I64(1)));
    expected.push("name", Some(Cell::Text(String::from("a"))));
    assert_eq!(first, expected);

    let second = fdw.iter_scan().unwrap();
    let mut expected = Row::new();
    expected.push("id", Some(Cell::I64(2)));
    expected.push("name", Some(Cell::Text(String::from("b"))));
    assert_eq!(second, expected);

    assert!(fdw.iter_scan().is_none());
    assert!(fdw.iter_scan().is_none());
    assert!(fdw.take_errors().is_empty());

    fdw.end_scan();
    assert!(fdw.iter_scan().is_none());
}

#[test]
fn scan_truncates_on_unsupported_column() {
    let mut fdw = ClickHouseFdw::new(true);
    let cols = vec![
        ResultColumn {
            name: String::from("id"),
            values: vec![RemoteValue::Int64(1)],
        },
        ResultColumn {
            name: String::from("tags"),
            values: vec![RemoteValue::Other(String::from("Array(String)"))],
        },
    ];
    let blk = ResultBlock::new(1, cols).unwrap();
    fdw.absorb_result(blk);
    fdw.begin_scan();
    assert!(fdw.iter_scan().is_none());
    let errors = fdw.take_errors();
    assert_eq!(
        errors,
        vec![FdwError::UnsupportedDataType(String::from(
            "data type Array(String) is not supported"
        ))]
    );
}

#[test]
fn insert_builds_batch_and_skips_bad_fields() {
    let mut fdw = ClickHouseFdw::new(true);
    fdw.begin_modify(&opts("events", "id"));
    let mut row = Row::new();
    row.push("id", Some(Cell::I64(1)));
    row.push("age", Some(Cell::I16(30)));
    row.push("name", Some(Cell::Text(String::from("a"))));
    row.push("note", None);
    let batch = fdw.insert(&row).unwrap();
    assert_eq!(
        batch,
        vec![
            (String::from("id"), RemoteValue::Int64(1)),
            (String::from("name"), RemoteValue::Text(String::from("a"))),
        ]
    );
    let errors = fdw.take_errors();
    assert_eq!(
        errors,
        vec![FdwError::UnsupportedDataType(String::from(
            "field type I16 not supported"
        ))]
    );
}

#[test]
fn update_excludes_rowid_and_renders_null() {
    let mut fdw = ClickHouseFdw::new(true);
    fdw.begin_modify(&opts("events", "id"));
    let mut row = Row::new();
    row.push("id", Some(Cell::I64(42)));
    row.push("name", Some(Cell::Text(String::from("n"))));
    row.push("x", None);
    let sql = fdw.update(&Cell::I64(42), &row).unwrap();
    assert_eq!(
        sql,
        "alter table events update name = 'n', x = null where id = 42"
    );
    assert!(fdw.take_errors().is_empty());
}

#[test]
fn update_drops_unrenderable_fields_with_report() {
    let mut fdw = ClickHouseFdw::new(true);
    fdw.begin_modify(&opts("events", "id"));
    let mut row = Row::new();
    row.push("w", Some(Cell::F64(2.5f64.to_bits())));
    row.push("name", Some(Cell::Text(String::from("n"))));
    let sql = fdw.update(&Cell::I64(7), &row).unwrap();
    assert_eq!(sql, "alter table events update name = 'n' where id = 7");
    let errors = fdw.take_errors();
    assert_eq!(
        errors,
        vec![FdwError::UnsupportedDataType(String::from(
            "field type F64 not supported"
        ))]
    );
}

#[test]
fn update_without_rowid_literal_reports() {
    let mut fdw = ClickHouseFdw::new(true);
    fdw.begin_modify(&opts("events", "id"));
    let row = Row::new();
    assert!(fdw.update(&Cell::F32(2.5f32.to_bits()), &row).is_none());
    let errors = fdw.take_errors();
    assert_eq!(
        errors,
        vec![FdwError::UnsupportedDataType(String::from(
            "field type F32 not supported"
        ))]
    );
}

#[test]
fn delete_keyed_by_timestamp_renders_calendar_form() {
    let mut fdw = ClickHouseFdw::new(true);
    fdw.begin_modify(&opts("events", "at"));
    let sql = fdw.delete(&Cell::Timestamp(1662921288000000000)).unwrap();
    assert_eq!(
        sql,
        "alter table events delete where at = '2022-09-11 18:34:48'"
    );
    assert!(fdw.take_errors().is_empty());
}

#[test]
fn delete_generates_exact_statement() {
    let mut fdw = ClickHouseFdw::new(true);
    fdw.begin_modify(&opts("events", "id"));
    let sql = fdw.delete(&Cell::I64(42)).unwrap();
    assert_eq!(sql, "alter table events delete where id = 42");
    assert!(fdw.take_errors().is_empty());
}

#[test]
fn connection_less_instance_no_ops_everything() {
    let mut fdw = ClickHouseFdw::new(false);
    let columns = vec![String::from("id")];
    let quals: Vec<Qual> = Vec::new();
    assert!(fdw
        .prepare_estimate(&quals, &columns, &opts("events", "id"))
        .is_none());
    fdw.begin_scan();
    assert!(fdw.iter_scan().is_none());
    fdw.begin_modify(&opts("events", "id"));
    let mut row = Row::new();
    row.push("id", Some(Cell::I64(1)));
    assert!(fdw.insert(&row).is_none());
    assert!(fdw.update(&Cell::I64(1), &row).is_none());
    assert!(fdw.delete(&Cell::I64(1)).is_none());
    fdw.end_modify();
    fdw.end_scan();
    assert!(fdw.take_errors().is_empty());
}

#[test]
fn result_block_refuses_ragged_columns() {
    let cols = vec![
        ResultColumn {
            name: String::from("a"),
            values: vec![RemoteValue::Int64(1)],
        },
        ResultColumn {
            name: String::from("b"),
            values: Vec::new(),
        },
    ];
    assert!(ResultBlock::new(1, cols).is_none());
    assert!(ResultBlock::new(0, Vec::new()).is_some());
}
