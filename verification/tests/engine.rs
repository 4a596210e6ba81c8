use sqlmicro::{
    parse_and_run, Column, ExecutionError, ExecutionResponse, Executor, SqlMicroError,
    SqlTypeInfo, Table, TableIter, Value,
};

fn schema_ab() -> Vec<Column> {
    vec![
        Column {
            name: "a".into(),
            type_info: SqlTypeInfo::Int,
        },
        Column {
            name: "b".into(),
            type_info: SqlTypeInfo::String,
        },
    ]
}

#[test]
fn insert_into_missing_table_fails() {
    let mut exec = Executor::new();
    let res = parse_and_run(&mut exec, "INSERT INTO missing VALUES 1;");
    match res {
        Err(SqlMicroError::ExecutionError(ExecutionError::TableNotFound(name))) => {
            assert_eq!(name, "missing".to_string());
        }
        other => panic!("expected TableNotFound, got {:?}", other),
    }
}

#[test]
fn select_from_missing_table_fails() {
    let mut exec = Executor::new();
    let res = parse_and_run(&mut exec, "select a from missing;");
    match res {
        Err(SqlMicroError::ExecutionError(ExecutionError::TableNotFound(name))) => {
            assert_eq!(name, "missing".to_string());
        }
        other => panic!("expected TableNotFound, got {:?}", other),
    }
}

#[test]
fn select_on_empty_table_returns_empty_sequence() {
    let mut exec = Executor::new();
    parse_and_run(&mut exec, "CREATE TABLE t (a int, b string);").unwrap();
    match parse_and_run(&mut exec, "select a, b from t;").unwrap() {
        ExecutionResponse::Select(rows) => assert!(rows.is_empty()),
        other => panic!("expected Select, got {:?}", other),
    }
}

#[test]
fn select_columns_match_declared_schema() {
    let mut exec = Executor::new();
    parse_and_run(&mut exec, "CREATE TABLE t (a int, b string);").unwrap();
    parse_and_run(&mut exec, "INSERT INTO t VALUES 1, 'x';").unwrap();
    match parse_and_run(&mut exec, "select a from t;").unwrap() {
        ExecutionResponse::Select(rows) => {
            assert_eq!(rows.len(), 1);
            let names: Vec<String> = rows[0].columns().iter().map(|c| c.name.clone()).collect();
            assert_eq!(names, vec!["a".to_string(), "b".to_string()]);
        }
        other => panic!("expected Select, got {:?}", other),
    }
}

#[test]
fn row_ids_are_strictly_increasing_from_zero() {
    let mut exec = Executor::new();
    parse_and_run(&mut exec, "CREATE TABLE t (a int);").unwrap();
    for v in ["1", "2", "3"] {
        let stmt = format!("INSERT INTO t VALUES {};", v);
        parse_and_run(&mut exec, &stmt).unwrap();
    }
    match parse_and_run(&mut exec, "select a from t;").unwrap() {
        ExecutionResponse::Select(rows) => {
            let ids: Vec<usize> = rows.iter().map(|r| r.id()).collect();
            assert_eq!(ids, vec![0, 1, 2]);
        }
        other => panic!("expected Select, got {:?}", other),
    }
}

#[test]
fn stored_values_are_canonical_decimal_text() {
    let mut exec = Executor::new();
    parse_and_run(&mut exec, "CREATE TABLE t (a int, b string);").unwrap();
    parse_and_run(&mut exec, "INSERT INTO t VALUES 007, 'seven';").unwrap();
    match parse_and_run(&mut exec, "select a, b from t;").unwrap() {
        ExecutionResponse::Select(rows) => {
            assert_eq!(rows[0].get(&"a".to_string()), "7".to_string());
            assert_eq!(rows[0].get(&"b".to_string()), "seven".to_string());
        }
        other => panic!("expected Select, got {:?}", other),
    }
}

#[test]
fn try_get_missing_column_fails() {
    let mut table = Table::new(schema_ab());
    table.insert(vec!["1".into(), "x".into()]);
    let mut it = table.iter();
    let row = it.next().unwrap();
    match row.try_get(&"nope".to_string()) {
        Err(ExecutionError::ColumnDoesNotExists(name)) => {
            assert_eq!(name, "nope".to_string());
        }
        other => panic!("expected ColumnDoesNotExists, got {:?}", other),
    }
    assert_eq!(row.try_get(&"a".to_string()).unwrap(), "1".to_string());
}

#[test]
fn insert_truncates_extra_values_and_leaves_missing_columns_absent() {
    let mut table = Table::new(schema_ab());
    table.insert(vec!["1".into()]);
    table.insert(vec!["2".into(), "y".into(), "dropped".into()]);
    let mut it = TableIter::new(&table);

    let first = it.next().unwrap();
    assert_eq!(first.try_get(&"a".to_string()).unwrap(), "1".to_string());
    assert!(first.try_get(&"b".to_string()).is_err());

    let second = it.next().unwrap();
    assert_eq!(second.get(&"a".to_string()), "2".to_string());
    assert_eq!(second.get(&"b".to_string()), "y".to_string());
    assert!(it.next().is_none());
}

#[test]
fn create_overwrites_existing_table() {
    let mut exec = Executor::new();
    parse_and_run(&mut exec, "CREATE TABLE t (a int);").unwrap();
    parse_and_run(&mut exec, "INSERT INTO t VALUES 1;").unwrap();
    parse_and_run(&mut exec, "CREATE TABLE t (b string);").unwrap();
    match parse_and_run(&mut exec, "select b from t;").unwrap() {
        ExecutionResponse::Select(rows) => assert!(rows.is_empty()),
        other => panic!("expected Select, got {:?}", other),
    }
}

#[test]
fn parse_failure_leaves_engine_unchanged() {
    let mut exec = Executor::new();
    parse_and_run(&mut exec, "CREATE TABLE t (a int);").unwrap();
    let res = parse_and_run(&mut exec, "CREATE TABLE u (a int,);");
    assert!(matches!(res, Err(SqlMicroError::ParsingError(_))));
    assert!(matches!(
        parse_and_run(&mut exec, "select a from u;"),
        Err(SqlMicroError::ExecutionError(ExecutionError::TableNotFound(_)))
    ));
}

#[test]
fn values_converted_to_text_on_insertion() {
    let v = Value::Number("12".into());
    let w = Value::String("12".into());
    assert_ne!(v, w);
    assert_eq!(v.to_text(), "12".to_string());
    assert_eq!(w.to_text(), "12".to_string());
}
