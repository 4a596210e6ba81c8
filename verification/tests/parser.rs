use sqlmicro::{
    Column, CreateStatement, InsertStatement, SelectStatement, SqlQuery, SqlTypeInfo, Value,
};

#[test]
fn create_test_create() {
    let expected = CreateStatement {
        table: "foo".into(),
        columns: vec![
            Column {
                name: "col1".into(),
                type_info: SqlTypeInfo::Int,
            },
            Column {
                name: "col2".into(),
                type_info: SqlTypeInfo::String,
            },
            Column {
                name: "col3".into(),
                type_info: SqlTypeInfo::String,
            },
        ],
    };

    let result =
        CreateStatement::parse_from_raw("CREATE TABLE foo (col1 int, col2 string, col3 string)")
            .unwrap()
            .1;

    assert_eq!(result, expected);
}

#[test]
fn test_select() {
    let expected = SelectStatement {
        table: "t1".into(),
        fields: vec!["foo".into(), "bar".into()],
    };

    let query = SelectStatement::parse_from_raw("select foo, bar from t1;").unwrap().1;

    assert_eq!(expected, query);
}

#[test]
fn query_test_create() {
    let expected = CreateStatement {
        table: "foo".into(),
        columns: vec![
            Column {
                name: "col1".into(),
                type_info: SqlTypeInfo::Int,
            },
            Column {
                name: "col2".into(),
                type_info: SqlTypeInfo::String,
            },
            Column {
                name: "col3".into(),
                type_info: SqlTypeInfo::String,
            },
        ],
    };

    let query_raw = "CREATE TABLE foo (col1 int, col2 string, col3 string);";

    let query = SqlQuery::parse_from_raw(query_raw).unwrap().1;

    assert_eq!(SqlQuery::Create(expected), query);
}

#[test]
fn test_string() {
    let expected = Value::String("123abc new".into());
    let expected_rem = "fart '123'";

    let (rem, val) = Value::parse_from_raw("'123abc new' fart '123'").unwrap();

    assert_eq!(val, expected);
    assert_eq!(expected_rem, rem.fragment().to_string());
}

#[test]
fn test_number() {
    let expected = Value::Number("123456".into());

    assert_eq!(Value::parse_from_raw("123456").unwrap().1, expected);
}

#[test]
fn keywords_are_case_insensitive() {
    let expected = SelectStatement {
        table: "t1".into(),
        fields: vec!["foo".into(), "bar".into()],
    };
    let query = SelectStatement::parse_from_raw("SeLeCt foo, bar FROM t1;").unwrap().1;
    assert_eq!(expected, query);

    let created = CreateStatement::parse_from_raw("create TABLE t (a INT)").unwrap().1;
    assert_eq!(created.table, "t".to_string());
    assert_eq!(created.columns[0].type_info, SqlTypeInfo::Int);
}

#[test]
fn comma_sep_rejects_trailing_comma() {
    assert!(SqlQuery::parse_from_raw("CREATE TABLE t (a int,);").is_err());
    assert!(SqlQuery::parse_from_raw("select foo, from t1;").is_err());
    assert!(SqlQuery::parse_from_raw("INSERT INTO t VALUES 1,;").is_err());
}

#[test]
fn comma_sep_rejects_zero_items() {
    assert!(SqlQuery::parse_from_raw("CREATE TABLE t ();").is_err());
    assert!(SqlQuery::parse_from_raw("INSERT INTO t VALUES ;").is_err());
    assert!(SqlQuery::parse_from_raw("select from;").is_err());
}

#[test]
fn number_normalizes_leading_zeros() {
    let val = Value::parse_from_raw("007").unwrap().1;
    assert_eq!(val, Value::Number("7".into()));
}

#[test]
fn number_stops_at_decimal_point() {
    let (rem, val) = Value::parse_from_raw("12.5").unwrap();
    assert_eq!(val, Value::Number("12".into()));
    assert_eq!(rem.fragment(), ".5");
}

#[test]
fn insert_without_parentheses() {
    let query = InsertStatement::parse_from_raw("INSERT INTO t1 VALUES 1, 'two', 3").unwrap().1;
    assert_eq!(query.table, "t1".to_string());
    assert_eq!(
        query.values,
        vec![
            Value::Number("1".into()),
            Value::String("two".into()),
            Value::Number("3".into())
        ]
    );
}

#[test]
fn unterminated_string_is_an_error() {
    assert!(Value::parse_from_raw("'no closing quote").is_err());
    assert!(SqlQuery::parse_from_raw("INSERT INTO t VALUES 'oops;").is_err());
}

#[test]
fn full_parse_rejects_trailing_input() {
    assert!(SqlQuery::parse_full("select a from t;").is_ok());
    assert!(SqlQuery::parse_full("select a from t; extra").is_err());
    assert!(SqlQuery::parse_full("select a from t").is_err());
    assert!(SqlQuery::parse_full("").is_err());
}

#[test]
fn format_error_renders_a_caret() {
    let err = SqlQuery::parse_format_error("CREATE TABLE ;").unwrap_err();
    assert!(err.contains('^'));
    assert!(err.contains("Query"));
    assert!(SqlQuery::parse_format_error("nonsense").is_err());
}
