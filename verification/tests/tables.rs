use sqlx_tables::bind::{add_agent_value_param, build_sqlx_params, Param};
use sqlx_tables::decode::{
    category_of, cell_category, decode_as, sqlx_value_ref_to_agent_value, Category, RawCell,
};
use sqlx_tables::pipeline::{
    plan_statement, rows_affected_to_table, rows_to_table, run_sqlx_statement,
    sqlx_row_to_agent_value, FetchedRow, Outcome, Plan,
};
use sqlx_tables::table::{find_header, get_array, row, rows, select, split_columns, EngineError};
use sqlx_tables::value::{copy_value, copy_values, Number, Value};

fn text(s: &str) -> Value {
    Value::String(s.to_string())
}

fn number(bits: u64, shown: &str) -> Number {
    Number { bits, text: shown.to_string() }
}

fn table(headers: Vec<Value>, rows: Vec<Value>) -> Value {
    Value::Object {
        keys: vec!["headers".to_string(), "rows".to_string()],
        values: vec![Value::Array(headers), Value::Array(rows)],
        json: String::new(),
    }
}

fn three_rows() -> Value {
    table(
        vec![text("a"), text("b")],
        vec![
            Value::Array(vec![Value::Integer(1), Value::Integer(2)]),
            Value::Array(vec![Value::Integer(3), Value::Integer(4)]),
            Value::Array(vec![Value::Integer(5), Value::Integer(6)]),
        ],
    )
}

fn cell(declared: &str) -> RawCell {
    RawCell {
        null: false,
        declared: declared.to_string(),
        boolean: None,
        integer: None,
        number: None,
        text: None,
        bytes: None,
    }
}

#[test]
fn binding_an_array_gives_one_parameter_for_each_item() {
    let input = Value::Array(vec![Value::Integer(1), text("x"), Value::Boolean(true)]);
    let params = build_sqlx_params(&input);
    assert_eq!(
        params,
        vec![Param::Integer(1), Param::Text("x".to_string()), Param::Boolean(true)]
    );
}

#[test]
fn binding_a_bare_integer_gives_one_parameter() {
    assert_eq!(build_sqlx_params(&Value::Integer(7)), vec![Param::Integer(7)]);
}

#[test]
fn binding_an_empty_array_gives_no_parameter() {
    assert_eq!(build_sqlx_params(&Value::Array(vec![])), vec![]);
}

#[test]
fn binding_maps_each_variant() {
    let mut args = Vec::new();
    add_agent_value_param(&mut args, &Value::Unit);
    add_agent_value_param(&mut args, &Value::Number(number(0x3FF8000000000000, "1.5")));
    let nested = Value::Array(vec![Value::Integer(1)]);
    add_agent_value_param(&mut args, &nested);
    let tensor = Value::Tensor(vec![number(0, "0")]);
    add_agent_value_param(&mut args, &tensor);
    let opaque = Value::Opaque("{\"type\":\"message\"}".to_string());
    add_agent_value_param(&mut args, &opaque);
    let object = Value::Object {
        keys: vec!["k".to_string()],
        values: vec![Value::Unit],
        json: "{\"k\":null}".to_string(),
    };
    add_agent_value_param(&mut args, &object);
    assert_eq!(
        args,
        vec![
            Param::Null,
            Param::Double(number(0x3FF8000000000000, "1.5")),
            Param::Json(copy_value(&nested)),
            Param::Json(copy_value(&tensor)),
            Param::Json(copy_value(&opaque)),
            Param::Json(copy_value(&object)),
        ]
    );
}

#[test]
fn nested_arrays_inside_a_top_level_array_are_bound_as_json() {
    let inner = Value::Array(vec![Value::Integer(1), Value::Integer(2)]);
    let params = build_sqlx_params(&Value::Array(vec![copy_value(&inner), Value::Unit]));
    assert_eq!(params, vec![Param::Json(inner), Param::Null]);
}

#[test]
fn null_cell_of_any_declared_type_is_unit() {
    for name in ["INTEGER", "TEXT", "BLOB", "WHATEVER", ""] {
        let mut c = cell(name);
        c.null = true;
        c.integer = Some(4);
        c.text = Some("t".to_string());
        assert_eq!(sqlx_value_ref_to_agent_value(&c), Value::Unit);
    }
}

#[test]
fn unrecognized_type_without_text_falls_back_to_its_name() {
    let mut c = cell("Geometry");
    c.integer = Some(4);
    assert_eq!(sqlx_value_ref_to_agent_value(&c), text("Geometry"));
}

#[test]
fn unrecognized_type_with_text_is_a_string() {
    let mut c = cell("uuid");
    c.text = Some("abc".to_string());
    assert_eq!(sqlx_value_ref_to_agent_value(&c), text("abc"));
}

#[test]
fn declared_names_are_matched_in_any_case() {
    let mut c = cell("integer");
    c.integer = Some(42);
    c.text = Some("forty-two".to_string());
    assert_eq!(sqlx_value_ref_to_agent_value(&c), Value::Integer(42));
    let mut d = cell("Double Precision");
    d.number = Some(number(0x4004000000000000, "2.5"));
    assert_eq!(
        sqlx_value_ref_to_agent_value(&d),
        Value::Number(number(0x4004000000000000, "2.5"))
    );
}

#[test]
fn each_category_reads_its_own_type() {
    let mut c = cell("BOOL");
    c.boolean = Some(true);
    c.integer = Some(1);
    assert_eq!(sqlx_value_ref_to_agent_value(&c), Value::Boolean(true));
    let mut c = cell("BIGINT");
    c.integer = Some(-9);
    assert_eq!(sqlx_value_ref_to_agent_value(&c), Value::Integer(-9));
    let mut c = cell("VARCHAR");
    c.text = Some("v".to_string());
    assert_eq!(sqlx_value_ref_to_agent_value(&c), text("v"));
    let mut c = cell("BLOB");
    c.bytes = Some(vec![0, 7, 255]);
    assert_eq!(
        sqlx_value_ref_to_agent_value(&c),
        Value::Array(vec![Value::Integer(0), Value::Integer(7), Value::Integer(255)])
    );
}

#[test]
fn a_failed_typed_read_gives_the_declared_name() {
    for name in ["BOOLEAN", "INT8", "NUMERIC", "TEXT", "BYTEA"] {
        assert_eq!(sqlx_value_ref_to_agent_value(&cell(name)), text(name));
    }
    let mut c = cell("int4");
    c.text = Some("not read".to_string());
    assert_eq!(sqlx_value_ref_to_agent_value(&c), text("int4"));
}

#[test]
fn categories_follow_the_name_table() {
    let table = [
        (Category::Boolean, vec!["BOOL", "BOOLEAN"]),
        (
            Category::Integer,
            vec!["INTEGER", "INT", "INT4", "INT8", "BIGINT", "SMALLINT", "TINYINT", "MEDIUMINT"],
        ),
        (
            Category::Number,
            vec![
                "REAL", "FLOAT", "FLOAT4", "FLOAT8", "DOUBLE", "DOUBLE PRECISION", "NUMERIC",
                "DECIMAL",
            ],
        ),
        (
            Category::Text,
            vec![
                "TEXT", "VARCHAR", "CHAR", "BPCHAR", "NAME", "CITEXT", "LONGTEXT", "MEDIUMTEXT",
                "TINYTEXT",
            ],
        ),
        (
            Category::Blob,
            vec!["BLOB", "BYTEA", "BINARY", "VARBINARY", "LONGBLOB", "MEDIUMBLOB", "TINYBLOB"],
        ),
        (Category::Other, vec!["", "bool", "JSON", "INT2", "TEXT "]),
    ];
    for (cat, names) in table {
        for n in names {
            assert_eq!(category_of(n), cat, "{}", n);
        }
    }
}

#[test]
fn cell_categories_ignore_case() {
    assert_eq!(cell_category("bigint"), Category::Integer);
    assert_eq!(cell_category("Double Precision"), Category::Number);
    assert_eq!(cell_category("ByteA"), Category::Blob);
    assert_eq!(cell_category("bool"), Category::Boolean);
    assert_eq!(cell_category("citext"), Category::Text);
    assert_eq!(cell_category("json"), Category::Other);
}

#[test]
fn rows_of_one_result_set_are_as_long_as_the_headers() {
    let built = rows_to_table(&fetched());
    let headers = get_array(&built, "headers").unwrap().len();
    for r in get_array(&built, "rows").unwrap() {
        match r {
            Value::Array(cells) => assert_eq!(cells.len(), headers),
            _ => panic!("a row is not an array"),
        }
    }
}

#[test]
fn decode_as_uses_the_given_category() {
    let mut c = cell("X");
    c.integer = Some(3);
    c.text = Some("three".to_string());
    assert_eq!(decode_as(&c, Category::Integer), Value::Integer(3));
    assert_eq!(decode_as(&c, Category::Other), text("three"));
    assert_eq!(decode_as(&c, Category::Boolean), text("X"));
}

#[test]
fn row_by_index_returns_that_row() {
    assert_eq!(
        row(&three_rows(), 2),
        Ok(Value::Array(vec![Value::Integer(5), Value::Integer(6)]))
    );
    assert_eq!(
        row(&three_rows(), 0),
        Ok(Value::Array(vec![Value::Integer(1), Value::Integer(2)]))
    );
}

#[test]
fn row_index_out_of_range_is_invalid() {
    assert_eq!(
        row(&three_rows(), 5),
        Err(EngineError::InvalidValue("Row index 5 out of bounds".to_string()))
    );
    assert_eq!(
        row(&three_rows(), 3),
        Err(EngineError::InvalidValue("Row index 3 out of bounds".to_string()))
    );
}

#[test]
fn negative_row_index_wraps_and_is_invalid() {
    assert_eq!(
        row(&three_rows(), -1),
        Err(EngineError::InvalidValue(
            "Row index 18446744073709551615 out of bounds".to_string()
        ))
    );
    assert_eq!(
        row(&three_rows(), i64::MIN),
        Err(EngineError::InvalidValue(
            "Row index 9223372036854775808 out of bounds".to_string()
        ))
    );
}

#[test]
fn rows_returns_the_rows_array() {
    let t = three_rows();
    let all = rows(&t).unwrap();
    assert_eq!(get_array(&t, "rows").map(|r| Value::Array(copy_values(r))), Some(all));
}

#[test]
fn missing_rows_is_invalid() {
    let missing = Err(EngineError::InvalidValue("Missing 'rows' field".to_string()));
    assert_eq!(rows(&Value::Unit), missing);
    assert_eq!(row(&Value::Integer(1), 0), missing);
    let no_rows = Value::Object {
        keys: vec!["headers".to_string()],
        values: vec![Value::Array(vec![])],
        json: String::new(),
    };
    assert_eq!(rows(&no_rows), missing);
    assert_eq!(select(&no_rows, ""), Err(EngineError::InvalidValue("Column '' not found".to_string())));
    let rows_not_array = Value::Object {
        keys: vec!["rows".to_string()],
        values: vec![Value::Integer(1)],
        json: String::new(),
    };
    assert_eq!(rows(&rows_not_array), missing);
}

#[test]
fn select_follows_the_requested_order() {
    let t = table(
        vec![text("a"), text("b")],
        vec![Value::Array(vec![Value::Integer(1), Value::Integer(2)])],
    );
    assert_eq!(
        select(&t, "b,a"),
        Ok(Value::Array(vec![Value::Integer(2), Value::Integer(1)]))
    );
}

#[test]
fn select_with_one_row_returns_it_unwrapped_and_with_more_wraps_them() {
    assert_eq!(
        select(&three_rows(), " b , a,b"),
        Ok(Value::Array(vec![
            Value::Array(vec![Value::Integer(2), Value::Integer(1), Value::Integer(2)]),
            Value::Array(vec![Value::Integer(4), Value::Integer(3), Value::Integer(4)]),
            Value::Array(vec![Value::Integer(6), Value::Integer(5), Value::Integer(6)]),
        ]))
    );
    let none = table(vec![text("a")], vec![]);
    assert_eq!(select(&none, "a"), Ok(Value::Array(vec![])));
}

#[test]
fn select_reports_the_first_missing_column() {
    assert_eq!(
        select(&three_rows(), "a, c ,d"),
        Err(EngineError::InvalidValue("Column 'c' not found".to_string()))
    );
    assert_eq!(
        select(&three_rows(), "a,"),
        Err(EngineError::InvalidValue("Column '' not found".to_string()))
    );
}

#[test]
fn select_checks_headers_then_columns_then_rows() {
    assert_eq!(
        select(&Value::Unit, "a"),
        Err(EngineError::InvalidValue("Missing 'headers' field".to_string()))
    );
    let no_rows = Value::Object {
        keys: vec!["headers".to_string()],
        values: vec![Value::Array(vec![text("a")])],
        json: String::new(),
    };
    assert_eq!(
        select(&no_rows, "a"),
        Err(EngineError::InvalidValue("Missing 'rows' field".to_string()))
    );
    let bad_row = table(vec![text("a")], vec![Value::Array(vec![Value::Unit]), Value::Integer(1)]);
    assert_eq!(
        select(&bad_row, "a"),
        Err(EngineError::InvalidValue("Row is not an array".to_string()))
    );
}

#[test]
fn select_takes_the_first_header_of_a_name_and_fills_short_rows() {
    let t = table(
        vec![text("a"), Value::Integer(9), text("a"), text("z")],
        vec![
            Value::Array(vec![Value::Integer(1), Value::Integer(2), Value::Integer(3)]),
            Value::Array(vec![]),
        ],
    );
    assert_eq!(
        select(&t, "z,a"),
        Ok(Value::Array(vec![
            Value::Array(vec![Value::Unit, Value::Integer(1)]),
            Value::Array(vec![Value::Unit, Value::Unit]),
        ]))
    );
}

#[test]
fn column_lists_are_split_and_trimmed() {
    let names: Vec<String> =
        split_columns(" a ,b b,, c\t").iter().map(|n| n.iter().collect()).collect();
    assert_eq!(names, vec!["a", "b b", "", "c"]);
    let one: Vec<String> = split_columns("").iter().map(|n| n.iter().collect()).collect();
    assert_eq!(one, vec![""]);
    let blank: Vec<String> = split_columns("  ").iter().map(|n| n.iter().collect()).collect();
    assert_eq!(blank, vec![""]);
}

#[test]
fn find_header_gives_the_first_match_or_the_length() {
    let headers = vec![text("x"), text("y"), text("x")];
    assert_eq!(find_header(&headers, &vec!['x']), 0);
    assert_eq!(find_header(&headers, &vec!['y']), 1);
    assert_eq!(find_header(&headers, &vec!['q']), 3);
}

#[test]
fn affected_rows_become_a_one_cell_table() {
    assert_eq!(
        rows_affected_to_table(3),
        table(vec![text("rows_affected")], vec![Value::Array(vec![Value::Integer(3)])])
    );
}

#[test]
fn affected_rows_are_clamped() {
    let big = rows_affected_to_table(u64::MAX);
    assert_eq!(row(&big, 0), Ok(Value::Array(vec![Value::Integer(i64::MAX)])));
    let edge = rows_affected_to_table(i64::MAX as u64);
    assert_eq!(row(&edge, 0), Ok(Value::Array(vec![Value::Integer(i64::MAX)])));
    let over = rows_affected_to_table(i64::MAX as u64 + 1);
    assert_eq!(row(&over, 0), Ok(Value::Array(vec![Value::Integer(i64::MAX)])));
}

fn fetched() -> Vec<FetchedRow> {
    let mut id = cell("INTEGER");
    id.integer = Some(1);
    let mut name = cell("TEXT");
    name.text = Some("ann".to_string());
    let mut id2 = cell("INTEGER");
    id2.integer = Some(2);
    let mut name2 = cell("TEXT");
    name2.null = true;
    vec![
        FetchedRow { columns: vec!["id".to_string(), "name".to_string()], cells: vec![id, name] },
        FetchedRow { columns: vec!["id".to_string(), "name".to_string()], cells: vec![id2, name2] },
    ]
}

#[test]
fn fetched_rows_become_a_table() {
    let expected = table(
        vec![text("id"), text("name")],
        vec![
            Value::Array(vec![Value::Integer(1), text("ann")]),
            Value::Array(vec![Value::Integer(2), Value::Unit]),
        ],
    );
    assert_eq!(rows_to_table(&fetched()), expected);
    assert_eq!(run_sqlx_statement(&Outcome::Rows(fetched())), Ok(expected));
    assert_eq!(
        sqlx_row_to_agent_value(&fetched()[0]),
        Value::Array(vec![Value::Integer(1), text("ann")])
    );
}

#[test]
fn the_same_outcome_gives_the_same_table() {
    let first = run_sqlx_statement(&Outcome::Rows(fetched()));
    let second = run_sqlx_statement(&Outcome::Rows(fetched()));
    assert_eq!(first, second);
}

#[test]
fn no_rows_give_no_headers() {
    assert_eq!(rows_to_table(&vec![]), table(vec![], vec![]));
}

#[test]
fn statement_outcomes_map_to_results() {
    assert_eq!(run_sqlx_statement(&Outcome::Affected(2)), Ok(rows_affected_to_table(2)));
    let failed = run_sqlx_statement(&Outcome::Failed("no such table: t".to_string()));
    assert_eq!(failed, Err(EngineError::Io("SQLx Error: no such table: t".to_string())));
    assert_eq!(failed.unwrap_err().message(), "SQLx Error: no such table: t");
}

#[test]
fn select_on_a_built_table() {
    let t = rows_to_table(&fetched());
    assert_eq!(
        select(&t, "name"),
        Ok(Value::Array(vec![Value::Array(vec![text("ann")]), Value::Array(vec![Value::Unit])]))
    );
    assert_eq!(select(&rows_affected_to_table(4), "rows_affected"), Ok(Value::Array(vec![Value::Integer(4)])));
}

#[test]
fn copies_are_equal() {
    let t = three_rows();
    assert_eq!(copy_value(&t), t);
    let n = Value::Tensor(vec![number(1, "a"), number(2, "b")]);
    assert_eq!(copy_value(&n), n);
}

#[test]
fn scripts_are_planned_by_their_first_word() {
    assert_eq!(plan_statement(""), Plan::Skip);
    assert_eq!(plan_statement(" "), Plan::Execute);
    assert_eq!(plan_statement("-- nothing"), Plan::Execute);
    assert_eq!(plan_statement("select 1"), Plan::Query);
    assert_eq!(plan_statement("/* c */ PRAGMA table_info(t)"), Plan::Query);
    assert_eq!(plan_statement("delete from t"), Plan::Execute);
}
