use emporium::json::Json;
use emporium::protocol::{ColumnDef, ProtoDataFrame};
use emporium::table::{normalize, Cells, DataError, Table};

fn cd(name: &str, alias: &str, dtype: &str) -> ColumnDef {
    ColumnDef { name: name.to_string(), alias: alias.to_string(), dtype: dtype.to_string() }
}

fn obj(ms: Vec<(&str, Json)>) -> Json {
    Json::Obj(ms.into_iter().map(|(k, v)| (k.to_string(), v)).collect())
}

fn s(x: &str) -> Json {
    Json::Str(x.to_string())
}

fn n(x: &str) -> Json {
    Json::Num(x.to_string())
}

fn table(r: Result<Table, DataError>) -> Table {
    match r {
        Ok(t) => t,
        Err(e) => panic!("expected a table, got {:?}", e),
    }
}

#[test]
fn scenario_row_oriented_integer() {
    let data = Json::Arr(vec![obj(vec![("x", s("5"))]), obj(vec![("x", Json::Null)])]);
    let schema = vec![cd("x", "X", "integer")];
    let t = table(normalize(&data, &schema));
    assert_eq!(t.columns.len(), 1);
    assert_eq!(t.columns[0].alias, "X");
    assert_eq!(t.columns[0].cells, Cells::Ints(vec![Some(5), None]));
}

#[test]
fn scenario_scalar_broadcast() {
    let data = obj(vec![("y", n("7")), ("z", Json::Arr(vec![s("a"), s("b"), s("c")]))]);
    let schema = vec![cd("y", "Y", "number"), cd("z", "Z", "string")];
    let t = table(normalize(&data, &schema));
    assert_eq!(t.columns[0].cells, Cells::Nums(vec![
        Some("7".to_string()),
        Some("7".to_string()),
        Some("7".to_string()),
    ]));
    assert_eq!(t.columns[1].cells, Cells::Texts(vec![
        Some("a".to_string()),
        Some("b".to_string()),
        Some("c".to_string()),
    ]));
}

#[test]
fn row_oriented_shape() {
    let data = Json::Arr(vec![
        obj(vec![("a", n("1")), ("b", s("x"))]),
        obj(vec![("a", n("2"))]),
    ]);
    let schema = vec![cd("a", "A", "integer"), cd("b", "B", "string")];
    let t = table(normalize(&data, &schema));
    assert_eq!(t.columns.len(), 2);
    assert_eq!(t.columns[0].cells, Cells::Ints(vec![Some(1), Some(2)]));
    assert_eq!(t.columns[1].cells, Cells::Texts(vec![Some("x".to_string()), None]));
}

#[test]
fn column_oriented_reconciled_lengths() {
    let data = obj(vec![
        ("a", Json::Arr(vec![n("1"), n("2"), n("3")])),
        ("b", Json::Arr(vec![n("9")])),
        ("d", s("k")),
    ]);
    let schema = vec![
        cd("a", "A", "integer"),
        cd("b", "B", "integer"),
        cd("c", "C", "integer"),
        cd("d", "D", "string"),
    ];
    let t = table(normalize(&data, &schema));
    assert_eq!(t.columns[0].cells, Cells::Ints(vec![Some(1), Some(2), Some(3)]));
    assert_eq!(t.columns[1].cells, Cells::Ints(vec![Some(9), Some(9), Some(9)]));
    assert_eq!(t.columns[2].cells, Cells::Ints(vec![None, None, None]));
    assert_eq!(t.columns[3].cells, Cells::Texts(vec![
        Some("k".to_string()),
        Some("k".to_string()),
        Some("k".to_string()),
    ]));
}

#[test]
fn ragged_columns_fail_to_assemble() {
    let data = obj(vec![
        ("a", Json::Arr(vec![n("1"), n("2"), n("3")])),
        ("b", Json::Arr(vec![n("1"), n("2")])),
    ]);
    let schema = vec![cd("a", "A", "integer"), cd("b", "B", "integer")];
    let r = normalize(&data, &schema);
    assert!(matches!(r, Err(DataError::BuildFailed(_))));
}

#[test]
fn absent_column_null_fill() {
    let data = obj(vec![("a", Json::Arr(vec![s("p"), s("q"), s("r")]))]);
    let schema = vec![cd("a", "A", "string"), cd("missing", "M", "boolean")];
    let t = table(normalize(&data, &schema));
    assert_eq!(t.columns[1].cells, Cells::Bools(vec![None, None, None]));
}

#[test]
fn boolean_coercion_forms() {
    let data = obj(vec![(
        "b",
        Json::Arr(vec![
            s("YES"),
            s("yes"),
            Json::Bool(true),
            n("1"),
            s("no"),
            Json::Bool(false),
            n("0"),
            s("maybe"),
            n("1.5"),
            n("0.0"),
            n("-0"),
            n("0e7"),
            Json::Null,
        ]),
    )]);
    let schema = vec![cd("b", "B", "boolean")];
    let t = table(normalize(&data, &schema));
    assert_eq!(t.columns[0].cells, Cells::Bools(vec![
        Some(true),
        Some(true),
        Some(true),
        Some(true),
        Some(false),
        Some(false),
        Some(false),
        None,
        Some(true),
        Some(false),
        Some(false),
        Some(false),
        None,
    ]));
}

#[test]
fn scalar_data_is_invalid_shape() {
    assert_eq!(normalize(&n("5"), &vec![]), Err(DataError::InvalidShape));
    assert_eq!(normalize(&s("x"), &vec![]), Err(DataError::InvalidShape));
    assert_eq!(normalize(&Json::Bool(true), &vec![]), Err(DataError::InvalidShape));
}

#[test]
fn null_data_gives_the_empty_table() {
    let schema = vec![cd("a", "A", "string")];
    assert_eq!(table(normalize(&Json::Null, &schema)).columns.len(), 0);
}

#[test]
fn empty_row_data_keeps_one_column_per_schema_entry() {
    let schema = vec![cd("a", "A", "string"), cd("b", "B", "integer")];
    let t = table(normalize(&Json::Arr(vec![]), &schema));
    assert_eq!(t.columns.len(), 2);
    assert_eq!(t.columns[0].alias, "A");
    assert_eq!(t.columns[0].cells, Cells::Texts(vec![]));
    assert_eq!(t.columns[1].alias, "B");
    assert_eq!(t.columns[1].cells, Cells::Ints(vec![]));
}

#[test]
fn duplicate_alias_fails() {
    let data = Json::Arr(vec![obj(vec![("a", n("1"))])]);
    let schema = vec![cd("a", "X", "integer"), cd("b", "X", "string")];
    assert!(matches!(normalize(&data, &schema), Err(DataError::BuildFailed(_))));
}

#[test]
fn integer_edges() {
    let data = Json::Arr(vec![
        obj(vec![("x", s("9223372036854775807"))]),
        obj(vec![("x", s("9223372036854775808"))]),
        obj(vec![("x", s("-9223372036854775808"))]),
        obj(vec![("x", n("-0"))]),
        obj(vec![("x", n("1e2"))]),
        obj(vec![("x", n("42"))]),
    ]);
    let schema = vec![cd("x", "X", "int")];
    let t = table(normalize(&data, &schema));
    assert_eq!(t.columns[0].cells, Cells::Ints(vec![
        Some(i64::MAX),
        None,
        Some(i64::MIN),
        None,
        None,
        Some(42),
    ]));
}

#[test]
fn number_from_text() {
    let data = Json::Arr(vec![
        obj(vec![("x", s("1e5"))]),
        obj(vec![("x", s("abc"))]),
        obj(vec![("x", s("inf"))]),
        obj(vec![("x", s(".5"))]),
        obj(vec![("x", n("2.25"))]),
    ]);
    let schema = vec![cd("x", "X", "float")];
    let t = table(normalize(&data, &schema));
    assert_eq!(t.columns[0].cells, Cells::Nums(vec![
        Some("1e5".to_string()),
        None,
        Some("inf".to_string()),
        Some(".5".to_string()),
        Some("2.25".to_string()),
    ]));
}

#[test]
fn datetime_rules_differ_by_orientation() {
    let row_data = Json::Arr(vec![obj(vec![("d", s("x"))])]);
    let schema = vec![cd("d", "D", "datetime")];
    let t = table(normalize(&row_data, &schema));
    assert_eq!(t.columns[0].cells, Cells::Texts(vec![Some("\"x\"".to_string())]));

    let col_data = obj(vec![("d", Json::Arr(vec![s("x")]))]);
    let t2 = table(normalize(&col_data, &schema));
    assert_eq!(t2.columns[0].cells, Cells::Texts(vec![Some("x".to_string())]));
}

#[test]
fn string_rule_renders_other_values() {
    let data = Json::Arr(vec![
        obj(vec![("v", Json::Bool(true))]),
        obj(vec![("v", obj(vec![("a", n("1"))]))]),
        obj(vec![("v", n("3.5"))]),
    ]);
    let schema = vec![cd("v", "V", "string")];
    let t = table(normalize(&data, &schema));
    assert_eq!(t.columns[0].cells, Cells::Texts(vec![
        Some("true".to_string()),
        Some("{\"a\":1}".to_string()),
        Some("3.5".to_string()),
    ]));
}

#[test]
fn unknown_dtype_falls_back_to_string() {
    let data = Json::Arr(vec![obj(vec![("v", n("7"))])]);
    let schema = vec![cd("v", "V", "mystery")];
    let t = table(normalize(&data, &schema));
    assert_eq!(t.columns[0].cells, Cells::Texts(vec![Some("7".to_string())]));
}

#[test]
fn to_dataframe_matches_normalize() {
    let frame = ProtoDataFrame {
        schema: vec![cd("x", "X", "integer")],
        data: obj(vec![("x", Json::Arr(vec![n("1"), n("2")]))]),
        metadata: None,
    };
    let t = frame.to_dataframe().unwrap();
    assert_eq!(t.columns[0].cells, Cells::Ints(vec![Some(1), Some(2)]));

    let bad = ProtoDataFrame { schema: vec![], data: n("5"), metadata: None };
    assert!(bad.to_dataframe().is_err());
}
