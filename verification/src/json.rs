//! The schema model: a table's name, its typed columns and its rows, with the
//! checks that a description has to pass before anything is sent to a database.
use vstd::prelude::*;

use crate::calendar::{date_text, date_text_shape, is_date_shaped, render_date};
use crate::chance::{
    calendar_date_at, local_calendar_date, random_first_name, random_in, random_instant,
    INSTANT_YEAR_HIGH, INSTANT_YEAR_LOW,
};
use crate::text::same_text;

verus! {

/// The recognised column types.
#[derive(Clone, Copy, Debug, PartialEq, Eq, Structural)]
pub enum ColumnType {
    StringCol,
    IntCol,
    FloatCol,
    DateCol,
}

/// A JSON number.
///
/// A whole number is held as `Integer` where the signed 64-bit range has it
/// and as `Unsigned` above that range. `Hundredths` holds a fraction with two
/// decimal places as a count of hundredths, and `Binary64` any other number
/// as the bit pattern of its double-precision representation.
#[derive(Clone, Copy, Debug, PartialEq, Eq, Structural)]
pub enum Number {
    Integer(i64),
    Unsigned(u64),
    Hundredths(u32),
    Binary64(u64),
}

/// A JSON value as far as a row cell is concerned: scalars are held in full,
/// arrays and objects only as their kind.
#[derive(Clone, Debug, PartialEq, Eq)]
pub enum Value {
    Null,
    Bool(bool),
    Number(Number),
    Text(String),
    Array,
    Object,
}

/// One column of a table: the tag of its declared type and its name.
#[derive(Clone, Debug, PartialEq, Eq)]
pub struct TableColumn {
    pub data_type: String,
    pub column_name: String,
}

/// A table description together with the rows to insert.
#[derive(Clone, Debug, PartialEq, Eq)]
pub struct JsonData {
    pub table_name: String,
    pub table_columns: Vec<TableColumn>,
    pub table_rows: Vec<Vec<Value>>,
}

/// Why a description was rejected.
#[derive(Clone, Copy, Debug, PartialEq, Eq, Structural)]
pub enum SchemaError {
    /// Some row does not hold exactly one value per column.
    ArityMismatch,
    /// Some column declares a type outside the recognised set.
    UnsupportedType,
}

/// A cell as contracts see it.
pub enum ValueView {
    Null,
    Bool(bool),
    Number(Number),
    Text(Seq<char>),
    Array,
    Object,
}

/// A column as contracts see it.
pub struct TableColumnView {
    pub data_type: Seq<char>,
    pub column_name: Seq<char>,
}

/// A table description as contracts see it.
pub struct JsonDataView {
    pub table_name: Seq<char>,
    pub table_columns: Seq<TableColumnView>,
    pub table_rows: Seq<Seq<ValueView>>,
}

impl View for Value {
    type V = ValueView;

    open spec fn view(&self) -> ValueView {
        match *self {
            Value::Null => ValueView::Null,
            Value::Bool(b) => ValueView::Bool(b),
            Value::Number(n) => ValueView::Number(n),
            Value::Text(s) => ValueView::Text(s@),
            Value::Array => ValueView::Array,
            Value::Object => ValueView::Object,
        }
    }
}

impl View for TableColumn {
    type V = TableColumnView;

    open spec fn view(&self) -> TableColumnView {
        TableColumnView { data_type: self.data_type@, column_name: self.column_name@ }
    }
}

/// The cells of a row, each by its view.
pub open spec fn row_view(row: Vec<Value>) -> Seq<ValueView> {
    row@.map_values(|v: Value| v@)
}

/// The columns of a table, each by its view.
pub open spec fn columns_view(columns: Vec<TableColumn>) -> Seq<TableColumnView> {
    columns@.map_values(|c: TableColumn| c@)
}

/// The rows of a table, each by its view.
pub open spec fn rows_view(rows: Vec<Vec<Value>>) -> Seq<Seq<ValueView>> {
    rows@.map_values(|row: Vec<Value>| row_view(row))
}

impl View for JsonData {
    type V = JsonDataView;

    open spec fn view(&self) -> JsonDataView {
        JsonDataView {
            table_name: self.table_name@,
            table_columns: columns_view(self.table_columns),
            table_rows: rows_view(self.table_rows),
        }
    }
}

/// The number as a signed 64-bit integer, where it is a whole number in that
/// range.
pub open spec fn integral(number: Number) -> Option<i64> {
    match number {
        Number::Integer(i) => Some(i),
        Number::Unsigned(u) => if u <= i64::MAX as u64 {
            Some(u as i64)
        } else {
            None
        },
        Number::Hundredths(_) => None,
        Number::Binary64(_) => None,
    }
}

impl Number {
    /// The number as a signed 64-bit integer. A fraction has none, whatever
    /// its value, and neither has a whole number beyond the range.
    pub fn as_i64(&self) -> (whole: Option<i64>)
        ensures
            whole == integral(*self),
    {
        match *self {
            Number::Integer(i) => Some(i),
            Number::Unsigned(u) => if u <= i64::MAX as u64 {
                Some(u as i64)
            } else {
                None
            },
            Number::Hundredths(_) => None,
            Number::Binary64(_) => None,
        }
    }
}

/// The column type that a tag names, if it names one.
pub open spec fn column_type_of(tag: Seq<char>) -> Option<ColumnType> {
    if tag == "string"@ {
        Some(ColumnType::StringCol)
    } else if tag == "int"@ {
        Some(ColumnType::IntCol)
    } else if tag == "float"@ {
        Some(ColumnType::FloatCol)
    } else if tag == "date"@ {
        Some(ColumnType::DateCol)
    } else {
        None
    }
}

/// Every row holds exactly one value per column.
pub open spec fn rows_match_columns(data: JsonDataView) -> bool {
    forall|r: int|
        0 <= r < data.table_rows.len() ==> (#[trigger] data.table_rows[r]).len()
            == data.table_columns.len()
}

/// Every column declares a recognised type.
pub open spec fn columns_are_typed(columns: Seq<TableColumnView>) -> bool {
    forall|c: int|
        0 <= c < columns.len() ==> column_type_of((#[trigger] columns[c]).data_type).is_some()
}

/// What validation answers: the arity of the rows is checked first, the
/// legality of the column types second.
pub open spec fn validation(data: JsonDataView) -> Result<(), SchemaError> {
    if !rows_match_columns(data) {
        Err(SchemaError::ArityMismatch)
    } else if !columns_are_typed(data.table_columns) {
        Err(SchemaError::UnsupportedType)
    } else {
        Ok(())
    }
}

/// Reads a type tag.
pub fn parse_column_type(tag: &str) -> (parsed: Option<ColumnType>)
    ensures
        parsed == column_type_of(tag@),
{
    if same_text(tag, "string") {
        Some(ColumnType::StringCol)
    } else if same_text(tag, "int") {
        Some(ColumnType::IntCol)
    } else if same_text(tag, "float") {
        Some(ColumnType::FloatCol)
    } else if same_text(tag, "date") {
        Some(ColumnType::DateCol)
    } else {
        None
    }
}

/// Checks that every row holds exactly one value per column.
pub fn validate_row_column_count(data: &JsonData) -> (valid: bool)
    ensures
        valid == rows_match_columns(data@),
{
    let column_count = data.table_columns.len();
    let mut r: usize = 0;
    while r < data.table_rows.len()
        invariant
            r <= data.table_rows.len(),
            column_count == data.table_columns.len(),
            forall|k: int| 0 <= k < r ==> (#[trigger] data@.table_rows[k]).len() == column_count,
        decreases data.table_rows.len() - r,
    {
        if data.table_rows[r].len() != column_count {
            assert(data@.table_rows[r as int].len() != data@.table_columns.len());
            return false;
        }
        r += 1;
    }
    true
}

/// Checks that every column declares a recognised type.
pub fn validate_columns_data_type(data: &JsonData) -> (valid: bool)
    ensures
        valid == columns_are_typed(data@.table_columns),
{
    let mut c: usize = 0;
    while c < data.table_columns.len()
        invariant
            c <= data.table_columns.len(),
            forall|k: int|
                0 <= k < c ==> column_type_of(
                    (#[trigger] data@.table_columns[k]).data_type,
                ).is_some(),
        decreases data.table_columns.len() - c,
    {
        if parse_column_type(data.table_columns[c].data_type.as_str()).is_none() {
            assert(column_type_of(data@.table_columns[c as int].data_type).is_none());
            return false;
        }
        c += 1;
    }
    true
}

/// Validates a description: first the arity of its rows, then the legality
/// of its column types. The first check that fails names the error.
pub fn validate_json_data(data: &JsonData) -> (checked: Result<(), SchemaError>)
    ensures
        checked == validation(data@),
        checked.is_ok() <==> rows_match_columns(data@) && columns_are_typed(data@.table_columns),
{
    if !validate_row_column_count(data) {
        return Err(SchemaError::ArityMismatch);
    }
    if !validate_columns_data_type(data) {
        return Err(SchemaError::UnsupportedType);
    }
    Ok(())
}

/// The words for a rejection.
pub open spec fn schema_message(error: SchemaError) -> Seq<char> {
    match error {
        SchemaError::ArityMismatch => "Row column count validation failed."@,
        SchemaError::UnsupportedType => "Column data type validation failed."@,
    }
}

impl SchemaError {
    /// Says in words why the description was rejected.
    pub fn message(&self) -> (words: String)
        ensures
            words@ == schema_message(*self),
    {
        match self {
            SchemaError::ArityMismatch => String::from_str("Row column count validation failed."),
            SchemaError::UnsupportedType => String::from_str(
                "Column data type validation failed.",
            ),
        }
    }
}

/// The template of a description: no table name, one column without type
/// and name, and no rows.
pub open spec fn template_view() -> JsonDataView {
    JsonDataView {
        table_name: Seq::empty(),
        table_columns: seq![
            TableColumnView { data_type: Seq::empty(), column_name: Seq::empty() },
        ],
        table_rows: Seq::empty(),
    }
}

/// Makes the template of a description, for its author to fill in.
pub fn template_json_data() -> (data: JsonData)
    ensures
        data@ == template_view(),
{
    let mut table_columns: Vec<TableColumn> = Vec::new();
    table_columns.push(TableColumn { data_type: String::new(), column_name: String::new() });
    let data = JsonData { table_name: String::new(), table_columns, table_rows: Vec::new() };
    assert(data@.table_columns =~= template_view().table_columns);
    assert(data@.table_rows =~= template_view().table_rows);
    data
}

/// Synthetic integers are drawn from here on.
pub const INTEGER_LOW: i32 = 1;

/// Synthetic integers stay below this bound.
pub const INTEGER_HIGH: i32 = 1000;

/// The least synthetic fraction, in hundredths.
pub const HUNDREDTHS_LOW: i32 = 1;

/// The greatest synthetic fraction, in hundredths.
pub const HUNDREDTHS_HIGH: i32 = 1_000_000;

/// Synthetic dates are taken on a clock this many seconds ahead of UTC.
pub const DATE_OFFSET_SECONDS: i32 = 9 * 3600;

/// The cell that a calendar date makes: its text, or null without a date.
pub open spec fn date_cell(date: Option<(i32, u32, u32)>) -> ValueView {
    match date {
        Some((year, month, day)) => ValueView::Text(date_text(year, month, day)),
        None => ValueView::Null,
    }
}

/// A cell that holds the text of a synthetic date: a calendar date of a
/// year within the bounds of drawn instants, written with ten characters
/// as year, month and day.
pub open spec fn is_synthetic_date(cell: ValueView) -> bool {
    &&& cell matches ValueView::Text(text)
    &&& is_date_shaped(text)
    &&& exists|year: i32, month: u32, day: u32|
        INSTANT_YEAR_LOW <= year <= INSTANT_YEAR_HIGH && 1 <= month <= 12 && 1 <= day <= 31
            && text == #[trigger] date_text(year, month, day)
}

/// What a synthetic cell is under a declared type: any text for a string
/// column; a whole number within the integer bounds for an integer column; a
/// fraction with two decimal places within the fraction bounds for a float
/// column; the text of a date, ten characters long, for a date column;
/// null where the type is not recognised.
pub open spec fn cell_conforms(tag: Seq<char>, cell: ValueView) -> bool {
    match column_type_of(tag) {
        Some(ColumnType::StringCol) => cell is Text,
        Some(ColumnType::IntCol) => {
            &&& cell matches ValueView::Number(Number::Integer(i))
            &&& INTEGER_LOW <= i < INTEGER_HIGH
        },
        Some(ColumnType::FloatCol) => {
            &&& cell matches ValueView::Number(Number::Hundredths(h))
            &&& HUNDREDTHS_LOW <= h <= HUNDREDTHS_HIGH
        },
        Some(ColumnType::DateCol) => is_synthetic_date(cell),
        None => cell == ValueView::Null,
    }
}

/// Every row holds one synthetic cell per column.
pub open spec fn rows_conform(data: JsonDataView) -> bool {
    &&& rows_match_columns(data)
    &&& forall|r: int, c: int|
        0 <= r < data.table_rows.len() && 0 <= c < data.table_columns.len() ==> cell_conforms(
            data.table_columns[c].data_type,
            #[trigger] data.table_rows[r][c],
        )
}

/// Makes the cell of a calendar date.
pub fn date_cell_of(date: Option<(i32, u32, u32)>) -> (cell: Value)
    ensures
        cell@ == date_cell(date),
{
    match date {
        Some((year, month, day)) => Value::Text(render_date(year, month, day)),
        None => Value::Null,
    }
}

/// Makes the date cell of an instant: the date on which the instant falls
/// on the clock of synthetic dates, or null where the text writes none.
pub fn date_value(stamp: &str) -> (cell: Value)
    ensures
        cell@ == date_cell(calendar_date_at(stamp@, DATE_OFFSET_SECONDS)),
        calendar_date_at(stamp@, DATE_OFFSET_SECONDS) matches Some(date) ==> 1 <= date.1 <= 12
            && 1 <= date.2 <= 31,
{
    let date = local_calendar_date(stamp, DATE_OFFSET_SECONDS);
    date_cell_of(date)
}

/// Draws one synthetic cell for a column.
pub fn random_cell(column: &TableColumn) -> (cell: Value)
    ensures
        cell_conforms(column@.data_type, cell@),
{
    match parse_column_type(column.data_type.as_str()) {
        Some(ColumnType::StringCol) => Value::Text(random_first_name()),
        Some(ColumnType::IntCol) => {
            let drawn = random_in(INTEGER_LOW, INTEGER_HIGH);
            let number = Number::Integer(drawn as i64);
            Value::Number(number)
        },
        Some(ColumnType::FloatCol) => {
            let drawn = random_in(HUNDREDTHS_LOW, HUNDREDTHS_HIGH + 1);
            let number = Number::Hundredths(drawn as u32);
            Value::Number(number)
        },
        Some(ColumnType::DateCol) => {
            let stamp = random_instant();
            let cell = date_value(stamp.as_str());
            proof {
                let date = calendar_date_at(stamp@, DATE_OFFSET_SECONDS);
                assert(date is Some);
                let (year, month, day) = date.unwrap();
                date_text_shape(year, month, day);
            }
            cell
        },
        None => Value::Null,
    }
}

/// Synthesises `n` rows for the columns of a description. The table's name
/// and columns are kept, the rows it came with are dropped.
pub fn generate_random_data(data: JsonData, n: usize) -> (generated: JsonData)
    ensures
        generated@.table_name == data@.table_name,
        generated@.table_columns == data@.table_columns,
        generated@.table_rows.len() == n,
        rows_conform(generated@),
        validation(generated@).is_ok() <==> columns_are_typed(data@.table_columns),
{
    let JsonData { table_name, table_columns, table_rows: _ } = data;
    let ghost columns = columns_view(table_columns);
    let mut table_rows: Vec<Vec<Value>> = Vec::new();
    let mut r: usize = 0;
    while r < n
        invariant
            r <= n,
            columns == columns_view(table_columns),
            table_rows@.len() == r,
            forall|k: int|
                0 <= k < r ==> (#[trigger] rows_view(table_rows)[k]).len() == columns.len(),
            forall|k: int, c: int|
                0 <= k < r && 0 <= c < columns.len() ==> cell_conforms(
                    (#[trigger] columns[c]).data_type,
                    (#[trigger] rows_view(table_rows)[k])[c],
                ),
        decreases n - r,
    {
        let mut row: Vec<Value> = Vec::new();
        let mut c: usize = 0;
        while c < table_columns.len()
            invariant
                c <= table_columns.len(),
                columns == columns_view(table_columns),
                row@.len() == c,
                forall|k: int|
                    0 <= k < c ==> cell_conforms(
                        (#[trigger] columns[k]).data_type,
                        row_view(row)[k],
                    ),
            decreases table_columns.len() - c,
        {
            let cell = random_cell(&table_columns[c]);
            row.push(cell);
            c += 1;
        }
        let ghost before = rows_view(table_rows);
        let ghost made = row_view(row);
        table_rows.push(row);
        proof {
            assert(rows_view(table_rows) =~= before.push(made));
        }
        r += 1;
    }
    JsonData { table_name, table_columns, table_rows }
}

} // verus!
