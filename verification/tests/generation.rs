use seeder::json::{
    date_cell_of, date_value, generate_random_data, random_cell, validate_json_data,
    validate_row_column_count, JsonData, Number, SchemaError, TableColumn, Value,
    DATE_OFFSET_SECONDS, HUNDREDTHS_HIGH, HUNDREDTHS_LOW, INTEGER_HIGH, INTEGER_LOW,
};

fn column(data_type: &str, column_name: &str) -> TableColumn {
    TableColumn { data_type: data_type.to_string(), column_name: column_name.to_string() }
}

fn table(columns: Vec<TableColumn>, rows: Vec<Vec<Value>>) -> JsonData {
    JsonData { table_name: "people".to_string(), table_columns: columns, table_rows: rows }
}

fn is_date_text(s: &str) -> bool {
    let b = s.as_bytes();
    b.len() == 10
        && b[4] == b'-'
        && b[7] == b'-'
        && b.iter().enumerate().all(|(i, c)| i == 4 || i == 7 || c.is_ascii_digit())
}

#[test]
fn three_string_columns_give_rows_of_three_texts() {
    let data = table(
        vec![column("string", "name"), column("string", "type"), column("string", "brand")],
        vec![],
    );
    let generated = generate_random_data(data, 5);
    assert_eq!(generated.table_rows.len(), 5);
    for row in &generated.table_rows {
        assert_eq!(row.len(), 3);
        for cell in row {
            assert!(matches!(cell, Value::Text(_)));
        }
    }
    assert_eq!(validate_json_data(&generated), Ok(()));
}

#[test]
fn generation_keeps_name_and_columns_and_drops_old_rows() {
    let columns = vec![column("int", "age"), column("date", "since")];
    let data = table(columns.clone(), vec![vec![Value::Null], vec![]]);
    let generated = generate_random_data(data, 2);
    assert_eq!(generated.table_name, "people");
    assert_eq!(generated.table_columns, columns);
    assert_eq!(generated.table_rows.len(), 2);
    assert!(validate_row_column_count(&generated));
}

#[test]
fn generating_no_rows_gives_none() {
    let data = table(vec![column("int", "age")], vec![vec![Value::Null]]);
    let generated = generate_random_data(data, 0);
    assert!(generated.table_rows.is_empty());
    assert_eq!(validate_json_data(&generated), Ok(()));
}

#[test]
fn generating_for_no_columns_gives_empty_rows() {
    let generated = generate_random_data(table(vec![], vec![]), 3);
    assert_eq!(generated.table_rows, vec![vec![], vec![], vec![]]);
}

#[test]
fn integers_stay_within_their_bounds() {
    let generated = generate_random_data(table(vec![column("int", "n")], vec![]), 300);
    for row in &generated.table_rows {
        match &row[0] {
            Value::Number(Number::Integer(i)) => {
                assert!(INTEGER_LOW as i64 <= *i && *i < INTEGER_HIGH as i64, "{}", i)
            }
            other => panic!("{:?}", other),
        }
    }
    assert_eq!((INTEGER_LOW, INTEGER_HIGH), (1, 1000));
}

#[test]
fn integers_are_not_all_the_same() {
    let generated = generate_random_data(table(vec![column("int", "n")], vec![]), 300);
    let first = &generated.table_rows[0][0];
    assert!(generated.table_rows.iter().any(|row| &row[0] != first));
}

#[test]
fn fractions_stay_within_their_bounds() {
    let generated = generate_random_data(table(vec![column("float", "x")], vec![]), 300);
    for row in &generated.table_rows {
        match &row[0] {
            Value::Number(Number::Hundredths(h)) => {
                assert!(HUNDREDTHS_LOW as u32 <= *h && *h <= HUNDREDTHS_HIGH as u32, "{}", h)
            }
            other => panic!("{:?}", other),
        }
    }
    assert_eq!((HUNDREDTHS_LOW, HUNDREDTHS_HIGH), (1, 1_000_000));
}

#[test]
fn dates_are_written_with_ten_characters() {
    let generated = generate_random_data(table(vec![column("date", "d")], vec![]), 100);
    for row in &generated.table_rows {
        match &row[0] {
            Value::Text(s) => assert!(is_date_text(s), "{}", s),
            other => panic!("{:?}", other),
        }
    }
}

#[test]
fn dates_fall_in_the_years_of_drawn_instants() {
    let generated = generate_random_data(table(vec![column("date", "d")], vec![]), 200);
    for row in &generated.table_rows {
        match &row[0] {
            Value::Text(s) => {
                let year: i32 = s[0..4].parse().unwrap();
                let month: u32 = s[5..7].parse().unwrap();
                let day: u32 = s[8..10].parse().unwrap();
                assert!(1677 <= year && year <= 2262, "{}", s);
                assert!(1 <= month && month <= 12, "{}", s);
                assert!(1 <= day && day <= 31, "{}", s);
            }
            other => panic!("{:?}", other),
        }
    }
}

#[test]
fn dates_are_never_null() {
    let generated =
        generate_random_data(table(vec![column("date", "a"), column("date", "b")], vec![]), 200);
    for row in &generated.table_rows {
        assert!(!row.contains(&Value::Null));
    }
}

#[test]
fn names_are_not_empty() {
    for _ in 0..50 {
        match random_cell(&column("string", "name")) {
            Value::Text(s) => assert!(!s.is_empty()),
            other => panic!("{:?}", other),
        }
    }
}

#[test]
fn unknown_types_give_null_and_fail_validation() {
    let generated =
        generate_random_data(table(vec![column("double", "x"), column("int", "n")], vec![]), 4);
    assert_eq!(generated.table_rows.len(), 4);
    for row in &generated.table_rows {
        assert_eq!(row.len(), 2);
        assert_eq!(row[0], Value::Null);
        assert!(matches!(row[1], Value::Number(Number::Integer(_))));
    }
    assert!(validate_row_column_count(&generated));
    assert_eq!(validate_json_data(&generated), Err(SchemaError::UnsupportedType));
}

#[test]
fn the_clock_of_dates_is_nine_hours_ahead() {
    assert_eq!(DATE_OFFSET_SECONDS, 32400);
}

#[test]
fn an_instant_late_in_the_day_falls_on_the_next_date() {
    assert_eq!(date_value("2024-02-29T20:00:00Z"), Value::Text("2024-03-01".to_string()));
    assert_eq!(date_value("2024-02-29T14:59:59Z"), Value::Text("2024-02-29".to_string()));
    assert_eq!(date_value("2024-02-29T15:00:00+00:00"), Value::Text("2024-03-01".to_string()));
    assert_eq!(date_value("1999-12-31T23:30:00+09:00"), Value::Text("1999-12-31".to_string()));
    assert_eq!(date_value("1999-12-31 23:30:00-05:00"), Value::Text("2000-01-01".to_string()));
}

#[test]
fn an_instant_with_fractions_of_a_second_is_read() {
    assert_eq!(
        date_value("2001-07-08T00:34:60.026490+09:30"),
        Value::Text("2001-07-08".to_string())
    );
}

#[test]
fn text_that_writes_no_instant_gives_null() {
    assert_eq!(date_value(""), Value::Null);
    assert_eq!(date_value("2024-02-29"), Value::Null);
    assert_eq!(date_value("yesterday"), Value::Null);
    assert_eq!(date_value("2024-13-01T00:00:00Z"), Value::Null);
}

#[test]
fn a_calendar_date_makes_a_text_cell() {
    assert_eq!(date_cell_of(Some((1990, 1, 1))), Value::Text("1990-01-01".to_string()));
    assert_eq!(date_cell_of(Some((12345, 10, 9))), Value::Text("+12345-10-09".to_string()));
    assert_eq!(date_cell_of(None), Value::Null);
}
