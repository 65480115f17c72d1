use seeder::db::{bind, bind_cell, build_insert, placeholder_text, BindError, BoundValue};
use seeder::json::{JsonData, Number, TableColumn, Value};

fn column(data_type: &str, column_name: &str) -> TableColumn {
    TableColumn { data_type: data_type.to_string(), column_name: column_name.to_string() }
}

fn table(name: &str, columns: Vec<TableColumn>) -> JsonData {
    JsonData { table_name: name.to_string(), table_columns: columns, table_rows: vec![] }
}

fn text(s: &str) -> Value {
    Value::Text(s.to_string())
}

#[test]
fn query_text_for_a_name_and_a_date() {
    let data = table("t", vec![column("string", "name"), column("date", "dob")]);
    assert_eq!(build_insert(&data), "INSERT INTO t (name, dob) VALUES ($1, CAST($2 AS DATE))");
}

#[test]
fn query_text_for_one_column() {
    let data = table("people", vec![column("int", "age")]);
    assert_eq!(build_insert(&data), "INSERT INTO people (age) VALUES ($1)");
}

#[test]
fn query_text_without_columns() {
    let data = table("empty", vec![]);
    assert_eq!(build_insert(&data), "INSERT INTO empty () VALUES ()");
}

#[test]
fn query_text_numbers_placeholders_past_nine() {
    let mut columns = Vec::new();
    for i in 0..12 {
        let kind = if i == 10 { "date" } else { "int" };
        columns.push(column(kind, &format!("c{}", i)));
    }
    let data = table("wide", columns);
    assert_eq!(
        build_insert(&data),
        "INSERT INTO wide (c0, c1, c2, c3, c4, c5, c6, c7, c8, c9, c10, c11) VALUES \
         ($1, $2, $3, $4, $5, $6, $7, $8, $9, $10, CAST($11 AS DATE), $12)"
    );
}

#[test]
fn query_text_does_not_depend_on_the_rows() {
    let mut data = table("t", vec![column("string", "name")]);
    let before = build_insert(&data);
    data.table_rows.push(vec![text("Alice")]);
    data.table_rows.push(vec![Value::Null, Value::Null]);
    assert_eq!(build_insert(&data), before);
}

#[test]
fn only_the_date_tag_is_cast() {
    assert_eq!(placeholder_text(&column("date", "d"), 3), "CAST($3 AS DATE)");
    assert_eq!(placeholder_text(&column("string", "d"), 3), "$3");
    assert_eq!(placeholder_text(&column("Date", "d"), 3), "$3");
    assert_eq!(placeholder_text(&column("", "d"), 120), "$120");
}

#[test]
fn cells_bind_by_declared_type() {
    assert_eq!(
        bind_cell(&column("string", "a"), &text("x")),
        Some(BoundValue::Text("x".to_string()))
    );
    assert_eq!(
        bind_cell(&column("date", "a"), &text("1990-01-01")),
        Some(BoundValue::Text("1990-01-01".to_string()))
    );
    assert_eq!(
        bind_cell(&column("int", "a"), &Value::Number(Number::Integer(-3))),
        Some(BoundValue::Integer(-3))
    );
    assert_eq!(
        bind_cell(&column("int", "a"), &Value::Number(Number::Unsigned(3))),
        Some(BoundValue::Integer(3))
    );
    assert_eq!(
        bind_cell(&column("float", "a"), &Value::Number(Number::Integer(3))),
        Some(BoundValue::Real(Number::Integer(3)))
    );
    assert_eq!(
        bind_cell(&column("float", "a"), &Value::Number(Number::Hundredths(1250))),
        Some(BoundValue::Real(Number::Hundredths(1250)))
    );
    let bits = 2.5f64.to_bits();
    assert_eq!(
        bind_cell(&column("float", "a"), &Value::Number(Number::Binary64(bits))),
        Some(BoundValue::Real(Number::Binary64(bits)))
    );
}

#[test]
fn cells_of_another_kind_do_not_bind() {
    assert_eq!(bind_cell(&column("string", "a"), &Value::Number(Number::Integer(1))), None);
    assert_eq!(bind_cell(&column("string", "a"), &Value::Null), None);
    assert_eq!(bind_cell(&column("date", "a"), &Value::Bool(true)), None);
    assert_eq!(bind_cell(&column("int", "a"), &text("1")), None);
    assert_eq!(
        bind_cell(&column("int", "a"), &Value::Number(Number::Binary64(1.0f64.to_bits()))),
        None
    );
    assert_eq!(bind_cell(&column("int", "a"), &Value::Number(Number::Hundredths(100))), None);
    assert_eq!(bind_cell(&column("int", "a"), &Value::Number(Number::Unsigned(u64::MAX))), None);
    assert_eq!(bind_cell(&column("float", "a"), &text("1.5")), None);
    assert_eq!(bind_cell(&column("float", "a"), &Value::Array), None);
    assert_eq!(bind_cell(&column("float", "a"), &Value::Object), None);
}

#[test]
fn cells_of_an_unknown_type_do_not_bind() {
    assert_eq!(bind_cell(&column("double", "a"), &Value::Number(Number::Integer(1))), None);
    assert_eq!(bind_cell(&column("", "a"), &text("x")), None);
}

#[test]
fn a_row_binds_in_column_order() {
    let columns = vec![
        column("string", "name"),
        column("int", "age"),
        column("float", "salary"),
        column("date", "birth_date"),
    ];
    let row = vec![
        text("Alice"),
        Value::Number(Number::Integer(30)),
        Value::Number(Number::Binary64(50000.0f64.to_bits())),
        text("1990-01-01"),
    ];
    assert_eq!(
        bind(&columns, &row, 0),
        Ok(vec![
            BoundValue::Text("Alice".to_string()),
            BoundValue::Integer(30),
            BoundValue::Real(Number::Binary64(50000.0f64.to_bits())),
            BoundValue::Text("1990-01-01".to_string()),
        ])
    );
}

#[test]
fn an_empty_row_binds_to_no_columns() {
    assert_eq!(bind(&vec![], &vec![], 4), Ok(vec![]));
}

#[test]
fn a_mismatch_names_row_and_first_column() {
    let columns = vec![column("string", "a"), column("int", "b"), column("int", "c")];
    let row = vec![text("x"), text("y"), text("z")];
    assert_eq!(bind(&columns, &row, 7), Err(BindError { row: 7, column: 1 }));
}

#[test]
fn a_short_row_fails_at_its_end() {
    let columns = vec![column("string", "a"), column("int", "b")];
    let row = vec![text("x")];
    assert_eq!(bind(&columns, &row, 2), Err(BindError { row: 2, column: 1 }));
}

#[test]
fn a_long_row_fails_behind_the_columns() {
    let columns = vec![column("string", "a")];
    let row = vec![text("x"), text("y")];
    assert_eq!(bind(&columns, &row, 0), Err(BindError { row: 0, column: 1 }));
}

#[test]
fn a_mismatch_before_the_end_of_a_short_row_comes_first() {
    let columns = vec![column("int", "a"), column("int", "b"), column("int", "c")];
    let row = vec![text("x"), Value::Number(Number::Integer(1))];
    assert_eq!(bind(&columns, &row, 0), Err(BindError { row: 0, column: 0 }));
}

#[test]
fn a_bind_error_names_its_cell() {
    assert_eq!(
        BindError { row: 12, column: 0 }.message(),
        "Row 12, column 0: the value does not match the declared type of the column."
    );
}
