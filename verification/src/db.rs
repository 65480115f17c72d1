//! From a table description to what a database is asked: the statement text,
//! the values bound to its placeholders, and the order of requests that makes
//! an insertion atomic.
use vstd::prelude::*;

use crate::json::{
    column_type_of, columns_are_typed, columns_view, generate_random_data, integral,
    parse_column_type, row_view, rows_conform, schema_message, validate_columns_data_type,
    validate_json_data, validation, ColumnType, JsonData, JsonDataView, Number, SchemaError,
    TableColumn, TableColumnView, Value, ValueView,
};
use crate::text::{decimal, decimal_text, join, join_texts, texts_view};

verus! {

/// The placeholder of the column at a 1-based position: a date column is
/// cast on the database's side, every other column is bound as it is.
pub open spec fn placeholder(column: TableColumnView, position: nat) -> Seq<char> {
    if column_type_of(column.data_type) == Some(ColumnType::DateCol) {
        "CAST($"@ + decimal(position) + " AS DATE)"@
    } else {
        "$"@ + decimal(position)
    }
}

/// The column names in schema order.
pub open spec fn column_names(columns: Seq<TableColumnView>) -> Seq<Seq<char>> {
    Seq::new(columns.len(), |i: int| columns[i].column_name)
}

/// One placeholder per column, numbered from 1 in schema order.
pub open spec fn placeholders(columns: Seq<TableColumnView>) -> Seq<Seq<char>> {
    Seq::new(columns.len(), |i: int| placeholder(columns[i], (i + 1) as nat))
}

/// The text of the one statement that inserts a row of the table.
pub open spec fn insert_statement(data: JsonDataView) -> Seq<char> {
    "INSERT INTO "@ + data.table_name + " ("@ + join(column_names(data.table_columns), ", "@)
        + ") VALUES ("@ + join(placeholders(data.table_columns), ", "@) + ")"@
}

/// Writes the placeholder of a column at a 1-based position.
pub fn placeholder_text(column: &TableColumn, position: u64) -> (text: String)
    ensures
        text@ == placeholder(column@, position as nat),
{
    let number = decimal_text(position);
    match parse_column_type(column.data_type.as_str()) {
        Some(ColumnType::DateCol) => {
            let mut text = String::from_str("CAST($");
            text.append(number.as_str());
            text.append(" AS DATE)");
            text
        },
        _ => {
            let mut text = String::from_str("$");
            text.append(number.as_str());
            text
        },
    }
}

/// Builds the parameterised `INSERT` statement of a table. It is built once
/// and bound again for every row.
pub fn build_insert(data: &JsonData) -> (query: String)
    ensures
        query@ == insert_statement(data@),
{
    let mut names: Vec<String> = Vec::new();
    let mut marks: Vec<String> = Vec::new();
    let mut i: usize = 0;
    while i < data.table_columns.len()
        invariant
            i <= data.table_columns.len(),
            names@.len() == i,
            marks@.len() == i,
            forall|k: int|
                0 <= k < i ==> (#[trigger] names@[k])@ == data@.table_columns[k].column_name,
            forall|k: int|
                0 <= k < i ==> (#[trigger] marks@[k])@ == placeholder(
                    data@.table_columns[k],
                    (k + 1) as nat,
                ),
        decreases data.table_columns.len() - i,
    {
        let column = &data.table_columns[i];
        names.push(column.column_name.clone());
        marks.push(placeholder_text(column, i as u64 + 1));
        i += 1;
    }
    assert(texts_view(names) =~= column_names(data@.table_columns));
    assert(texts_view(marks) =~= placeholders(data@.table_columns));
    let mut query = String::from_str("INSERT INTO ");
    query.append(data.table_name.as_str());
    query.append(" (");
    query.append(join_texts(&names, ", ").as_str());
    query.append(") VALUES (");
    query.append(join_texts(&marks, ", ").as_str());
    query.append(")");
    query
}

/// A value attached to a placeholder.
#[derive(Clone, Debug, PartialEq, Eq)]
pub enum BoundValue {
    /// Bound as text. A date is bound so too: the statement casts it.
    Text(String),
    /// Bound as a 64-bit integer.
    Integer(i64),
    /// Bound as a 64-bit floating-point number, the nearest to this number.
    Real(Number),
}

/// A bound value as contracts see it.
pub enum BoundView {
    Text(Seq<char>),
    Integer(i64),
    Real(Number),
}

impl View for BoundValue {
    type V = BoundView;

    open spec fn view(&self) -> BoundView {
        match *self {
            BoundValue::Text(s) => BoundView::Text(s@),
            BoundValue::Integer(i) => BoundView::Integer(i),
            BoundValue::Real(n) => BoundView::Real(n),
        }
    }
}

/// The bound values of a list, each by its view.
pub open spec fn bound_view(arguments: Vec<BoundValue>) -> Seq<BoundView> {
    arguments@.map_values(|b: BoundValue| b@)
}

/// A cell whose kind its column's declared type does not accept, or a
/// position at which the row and the column list do not both have an entry.
#[derive(Clone, Copy, Debug, PartialEq, Eq, Structural)]
pub struct BindError {
    /// The index of the row, from 0.
    pub row: usize,
    /// The index of the column, from 0.
    pub column: usize,
}

/// What a cell binds as under a declared type: text for a string or a date
/// column, a whole number for an integer column, any number for a float
/// column. Nothing where the kinds disagree or the type is not recognised.
pub open spec fn bound_cell(tag: Seq<char>, cell: ValueView) -> Option<BoundView> {
    match column_type_of(tag) {
        Some(ColumnType::StringCol) | Some(ColumnType::DateCol) => match cell {
            ValueView::Text(s) => Some(BoundView::Text(s)),
            _ => None,
        },
        Some(ColumnType::IntCol) => match cell {
            ValueView::Number(n) => match integral(n) {
                Some(i) => Some(BoundView::Integer(i)),
                None => None,
            },
            _ => None,
        },
        Some(ColumnType::FloatCol) => match cell {
            ValueView::Number(n) => Some(BoundView::Real(n)),
            _ => None,
        },
        None => None,
    }
}

/// Whether position `i` has both a column and a cell, and the cell binds.
pub open spec fn binds_at(columns: Seq<TableColumnView>, row: Seq<ValueView>, i: int) -> bool {
    0 <= i < columns.len() && i < row.len() && bound_cell(columns[i].data_type, row[i]).is_some()
}

/// Whether the row has one cell per column and every cell binds.
pub open spec fn row_binds(columns: Seq<TableColumnView>, row: Seq<ValueView>) -> bool {
    row.len() == columns.len() && forall|i: int| 0 <= i < row.len() ==> binds_at(columns, row, i)
}

/// The values that a row binds, in column order.
pub open spec fn bound_row(columns: Seq<TableColumnView>, row: Seq<ValueView>) -> Seq<BoundView> {
    Seq::new(row.len(), |i: int| bound_cell(columns[i].data_type, row[i]).unwrap())
}

/// The first position from `i` on at which the row does not bind.
pub open spec fn first_unbound_from(
    columns: Seq<TableColumnView>,
    row: Seq<ValueView>,
    i: int,
) -> int
    decreases columns.len() - i,
{
    if binds_at(columns, row, i) {
        first_unbound_from(columns, row, i + 1)
    } else {
        i
    }
}

/// What binding a row yields: its bound values where it binds, and else the
/// row's index with the first position at which it does not.
pub open spec fn binding(columns: Seq<TableColumnView>, row: Seq<ValueView>, row_index: usize) -> Result<
    Seq<BoundView>,
    BindError,
> {
    if row_binds(columns, row) {
        Ok(bound_row(columns, row))
    } else {
        Err(BindError { row: row_index, column: first_unbound_from(columns, row, 0) as usize })
    }
}

/// The outcome of a binding, its values by their views.
pub open spec fn binding_view(bound: Result<Vec<BoundValue>, BindError>) -> Result<
    Seq<BoundView>,
    BindError,
> {
    match bound {
        Ok(arguments) => Ok(bound_view(arguments)),
        Err(e) => Err(e),
    }
}

/// Binds one cell under the declared type of its column.
pub fn bind_cell(column: &TableColumn, cell: &Value) -> (bound: Option<BoundValue>)
    ensures
        bound.is_some() == bound_cell(column@.data_type, cell@).is_some(),
        bound matches Some(b) ==> Some(b@) == bound_cell(column@.data_type, cell@),
{
    match parse_column_type(column.data_type.as_str()) {
        Some(ColumnType::StringCol) | Some(ColumnType::DateCol) => match cell {
            Value::Text(s) => Some(BoundValue::Text(s.clone())),
            _ => None,
        },
        Some(ColumnType::IntCol) => match cell {
            Value::Number(n) => match n.as_i64() {
                Some(i) => Some(BoundValue::Integer(i)),
                None => None,
            },
            _ => None,
        },
        Some(ColumnType::FloatCol) => match cell {
            Value::Number(n) => Some(BoundValue::Real(*n)),
            _ => None,
        },
        None => None,
    }
}

/// Binds a row to the placeholders of the statement, cell by cell in column
/// order. A cell that its column does not accept is reported with the row's
/// index and its position, and so is the first position that the row or the
/// column list lacks; nothing is bound in part.
pub fn bind(columns: &Vec<TableColumn>, row: &Vec<Value>, row_index: usize) -> (bound: Result<
    Vec<BoundValue>,
    BindError,
>)
    ensures
        binding_view(bound) == binding(columns_view(*columns), row_view(*row), row_index),
        bound.is_ok() <==> row_binds(columns_view(*columns), row_view(*row)),
{
    let ghost cs = columns_view(*columns);
    let ghost vs = row_view(*row);
    let mut arguments: Vec<BoundValue> = Vec::new();
    let mut i: usize = 0;
    while i < row.len()
        invariant
            i <= row.len(),
            i <= columns.len(),
            cs == columns_view(*columns),
            vs == row_view(*row),
            arguments@.len() == i,
            forall|k: int| 0 <= k < i ==> binds_at(cs, vs, k),
            forall|k: int|
                0 <= k < i ==> Some((#[trigger] arguments@[k])@) == bound_cell(
                    cs[k].data_type,
                    vs[k],
                ),
            first_unbound_from(cs, vs, 0) == first_unbound_from(cs, vs, i as int),
        decreases row.len() - i,
    {
        if i >= columns.len() {
            assert(!binds_at(cs, vs, i as int));
            return Err(BindError { row: row_index, column: i });
        }
        match bind_cell(&columns[i], &row[i]) {
            Some(b) => {
                arguments.push(b);
            },
            None => {
                assert(!binds_at(cs, vs, i as int));
                return Err(BindError { row: row_index, column: i });
            },
        }
        assert(binds_at(cs, vs, i as int));
        i += 1;
    }
    if i < columns.len() {
        assert(!binds_at(cs, vs, i as int));
        return Err(BindError { row: row_index, column: i });
    }
    assert(bound_view(arguments) =~= bound_row(cs, vs));
    Ok(arguments)
}

proof fn lemma_first_unbound_from(columns: Seq<TableColumnView>, row: Seq<ValueView>, i: int)
    requires
        0 <= i,
        forall|k: int| 0 <= k < i ==> binds_at(columns, row, k),
    ensures
        i <= first_unbound_from(columns, row, i),
        !binds_at(columns, row, first_unbound_from(columns, row, i)),
        forall|k: int| 0 <= k < first_unbound_from(columns, row, i) ==> binds_at(columns, row, k),
    decreases columns.len() - i,
{
    if binds_at(columns, row, i) {
        lemma_first_unbound_from(columns, row, i + 1);
    }
}

/// The position that a failed binding reports is the first at which the row
/// does not bind: every position before it binds, and it does not. It lies
/// within both the row and the column list, or right behind the shorter, and
/// it is the common length of both exactly where the row binds.
pub proof fn first_unbound_is_least(columns: Seq<TableColumnView>, row: Seq<ValueView>)
    ensures
        0 <= first_unbound_from(columns, row, 0),
        !binds_at(columns, row, first_unbound_from(columns, row, 0)),
        forall|k: int| 0 <= k < first_unbound_from(columns, row, 0) ==> binds_at(columns, row, k),
        first_unbound_from(columns, row, 0) <= columns.len(),
        first_unbound_from(columns, row, 0) <= row.len(),
        row_binds(columns, row) <==> (first_unbound_from(columns, row, 0) == row.len() && row.len()
            == columns.len()),
{
    lemma_first_unbound_from(columns, row, 0);
    let first = first_unbound_from(columns, row, 0);
    if first > 0 {
        assert(binds_at(columns, row, first - 1));
    }
}

/// The three requests that frame a transaction.
#[derive(Clone, Copy, Debug, PartialEq, Eq, Structural)]
pub enum Stage {
    Begin,
    Commit,
    Rollback,
}

/// Why an insertion did not persist its rows.
#[derive(Clone, Debug, PartialEq, Eq)]
pub enum InsertError {
    /// The description was rejected before anything was asked of the database.
    Schema(SchemaError),
    /// A row did not bind.
    Bind(BindError),
    /// The database refused the statement for the row at this index.
    Execution { row: usize, message: String },
    /// The database failed to begin, commit or roll back the transaction.
    Transaction { stage: Stage, message: String },
}

/// A failure as contracts see it.
pub enum InsertErrorView {
    Schema(SchemaError),
    Bind(BindError),
    Execution { row: usize, message: Seq<char> },
    Transaction { stage: Stage, message: Seq<char> },
}

impl View for InsertError {
    type V = InsertErrorView;

    open spec fn view(&self) -> InsertErrorView {
        match *self {
            InsertError::Schema(e) => InsertErrorView::Schema(e),
            InsertError::Bind(e) => InsertErrorView::Bind(e),
            InsertError::Execution { row, message } => InsertErrorView::Execution {
                row,
                message: message@,
            },
            InsertError::Transaction { stage, message } => InsertErrorView::Transaction {
                stage,
                message: message@,
            },
        }
    }
}

/// The words for a row that did not bind.
pub open spec fn bind_message(error: BindError) -> Seq<char> {
    "Row "@ + decimal(error.row as nat) + ", column "@ + decimal(error.column as nat)
        + ": the value does not match the declared type of the column."@
}

/// The words for a failed insertion: those of the rejection or of the
/// binding, and else the database's own.
pub open spec fn insert_message(error: InsertErrorView) -> Seq<char> {
    match error {
        InsertErrorView::Schema(e) => schema_message(e),
        InsertErrorView::Bind(e) => bind_message(e),
        InsertErrorView::Execution { row, message } => message,
        InsertErrorView::Transaction { stage, message } => message,
    }
}

/// The words for a failed synthetic seed: an unsupported type is put in the
/// words of that command, everything else as for any insertion.
pub open spec fn synthetic_message(error: InsertErrorView) -> Seq<char> {
    match error {
        InsertErrorView::Schema(SchemaError::UnsupportedType) =>
            "Invalid data type found in table columns"@,
        _ => insert_message(error),
    }
}

impl BindError {
    /// Names the row and the column of the cell that did not bind, both
    /// counted from 0.
    pub fn message(&self) -> (words: String)
        ensures
            words@ == bind_message(*self),
    {
        let mut words = String::from_str("Row ");
        words.append(decimal_text(self.row as u64).as_str());
        words.append(", column ");
        words.append(decimal_text(self.column as u64).as_str());
        words.append(": the value does not match the declared type of the column.");
        words
    }
}

impl InsertError {
    /// Says in words why the insertion failed.
    pub fn message(&self) -> (words: String)
        ensures
            words@ == insert_message(self@),
    {
        match self {
            InsertError::Schema(e) => e.message(),
            InsertError::Bind(e) => e.message(),
            InsertError::Execution { row, message } => message.clone(),
            InsertError::Transaction { stage, message } => message.clone(),
        }
    }

    /// Says in words why the insertion of synthetic rows failed.
    pub fn message_for_synthetic(&self) -> (words: String)
        ensures
            words@ == synthetic_message(self@),
    {
        match self {
            InsertError::Schema(SchemaError::UnsupportedType) => String::from_str(
                "Invalid data type found in table columns",
            ),
            _ => self.message(),
        }
    }
}

/// How an insertion ended, the error by its view.
pub open spec fn result_view(result: Result<(), InsertError>) -> Result<(), InsertErrorView> {
    match result {
        Ok(_) => Ok(()),
        Err(e) => Err(e@),
    }
}

/// What the database answered to the last request, with its own words where
/// it failed.
#[derive(Clone, Debug, PartialEq, Eq)]
pub enum Outcome {
    Succeeded,
    Failed(String),
}

/// An answer as contracts see it.
pub enum OutcomeView {
    Succeeded,
    Failed(Seq<char>),
}

impl View for Outcome {
    type V = OutcomeView;

    open spec fn view(&self) -> OutcomeView {
        match *self {
            Outcome::Succeeded => OutcomeView::Succeeded,
            Outcome::Failed(message) => OutcomeView::Failed(message@),
        }
    }
}

/// What the driver is to ask of the database next.
#[derive(Clone, Debug, PartialEq, Eq)]
pub enum Request {
    /// Begin a transaction.
    Begin,
    /// Run the statement with these values attached to its placeholders.
    Execute { statement: String, arguments: Vec<BoundValue> },
    /// Commit the transaction.
    Commit,
    /// Roll the transaction back.
    Rollback,
    /// Ask nothing more: the insertion has ended.
    Stop,
}

/// A request as contracts see it.
pub enum RequestView {
    Begin,
    Execute { statement: Seq<char>, arguments: Seq<BoundView> },
    Commit,
    Rollback,
    Stop,
}

impl View for Request {
    type V = RequestView;

    open spec fn view(&self) -> RequestView {
        match *self {
            Request::Begin => RequestView::Begin,
            Request::Execute { statement, arguments } => RequestView::Execute {
                statement: statement@,
                arguments: bound_view(arguments),
            },
            Request::Commit => RequestView::Commit,
            Request::Rollback => RequestView::Rollback,
            Request::Stop => RequestView::Stop,
        }
    }
}

/// How much of the transaction an insertion looks after.
#[derive(Clone, Copy, Debug, PartialEq, Eq, Structural)]
pub enum Scope {
    /// The insertion has the transaction begun, and committed or rolled
    /// back.
    Transaction,
    /// The insertion only executes rows, in a transaction that its caller
    /// has begun and will commit or roll back.
    Rows,
}

/// Where an insertion stands: which request is under way, or how it ended.
pub enum PhaseView {
    /// The transaction is being begun.
    Beginning,
    /// The statement is being run for the row at this index.
    Executing(int),
    /// The transaction is being committed.
    Committing,
    /// The transaction is being rolled back, for this reason.
    RollingBack(InsertErrorView),
    /// The insertion has ended.
    Finished(Result<(), InsertErrorView>),
}

enum Phase {
    Beginning,
    Executing(usize),
    Committing,
    RollingBack(InsertError),
    Finished(Result<(), InsertError>),
}

impl View for Phase {
    type V = PhaseView;

    closed spec fn view(&self) -> PhaseView {
        match *self {
            Phase::Beginning => PhaseView::Beginning,
            Phase::Executing(i) => PhaseView::Executing(i as int),
            Phase::Committing => PhaseView::Committing,
            Phase::RollingBack(cause) => PhaseView::RollingBack(cause@),
            Phase::Finished(result) => PhaseView::Finished(result_view(result)),
        }
    }
}

/// The request that is under way in a phase.
pub open spec fn request_of(data: JsonDataView, phase: PhaseView) -> RequestView {
    match phase {
        PhaseView::Beginning => RequestView::Begin,
        PhaseView::Executing(i) => RequestView::Execute {
            statement: insert_statement(data),
            arguments: bound_row(data.table_columns, data.table_rows[i]),
        },
        PhaseView::Committing => RequestView::Commit,
        PhaseView::RollingBack(_) => RequestView::Rollback,
        PhaseView::Finished(_) => RequestView::Stop,
    }
}

/// The phase in which the row at index `i` is taken up. A row that binds is
/// executed. Behind the last row an insertion that looks after the
/// transaction has it committed, and one that only executes rows has ended
/// in success. A row that does not bind has the transaction rolled back in
/// the first case and ends the insertion at once in the second.
pub open spec fn enter_row(data: JsonDataView, scope: Scope, i: int) -> PhaseView {
    if i >= data.table_rows.len() {
        match scope {
            Scope::Transaction => PhaseView::Committing,
            Scope::Rows => PhaseView::Finished(Ok(())),
        }
    } else {
        match binding(data.table_columns, data.table_rows[i], i as usize) {
            Ok(_) => PhaseView::Executing(i),
            Err(e) => match scope {
                Scope::Transaction => PhaseView::RollingBack(InsertErrorView::Bind(e)),
                Scope::Rows => PhaseView::Finished(Err(InsertErrorView::Bind(e))),
            },
        }
    }
}

/// The phase in which an insertion opens: a description that fails
/// validation ends it at once, with nothing asked of the database.
pub open spec fn opening(data: JsonDataView) -> PhaseView {
    match validation(data) {
        Ok(_) => PhaseView::Beginning,
        Err(e) => PhaseView::Finished(Err(InsertErrorView::Schema(e))),
    }
}

/// The phase that follows when the request under way is answered.
///
/// Rows are executed one at a time and in order, and no request is tried
/// twice. In an insertion that looks after the transaction, the first
/// failure, of a statement or of a binding, has the transaction rolled back
/// and ends the insertion with that failure, and the transaction is
/// committed only behind the last row. An insertion that only executes rows
/// ends with the first failure, or in success behind the last row, and asks
/// for nothing else.
pub open spec fn step(
    data: JsonDataView,
    scope: Scope,
    phase: PhaseView,
    outcome: OutcomeView,
) -> PhaseView {
    match phase {
        PhaseView::Beginning => match outcome {
            OutcomeView::Succeeded => enter_row(data, scope, 0),
            OutcomeView::Failed(message) => PhaseView::Finished(
                Err(InsertErrorView::Transaction { stage: Stage::Begin, message }),
            ),
        },
        PhaseView::Executing(i) => match outcome {
            OutcomeView::Succeeded => enter_row(data, scope, i + 1),
            OutcomeView::Failed(message) => {
                let cause = InsertErrorView::Execution { row: i as usize, message };
                match scope {
                    Scope::Transaction => PhaseView::RollingBack(cause),
                    Scope::Rows => PhaseView::Finished(Err(cause)),
                }
            },
        },
        PhaseView::Committing => match outcome {
            OutcomeView::Succeeded => PhaseView::Finished(Ok(())),
            OutcomeView::Failed(message) => PhaseView::Finished(
                Err(InsertErrorView::Transaction { stage: Stage::Commit, message }),
            ),
        },
        PhaseView::RollingBack(cause) => match outcome {
            OutcomeView::Succeeded => PhaseView::Finished(Err(cause)),
            OutcomeView::Failed(message) => PhaseView::Finished(
                Err(InsertErrorView::Transaction { stage: Stage::Rollback, message }),
            ),
        },
        PhaseView::Finished(result) => PhaseView::Finished(result),
    }
}

/// An insertion of the rows of one table description in one transaction,
/// between two requests.
///
/// The insertion decides; a driver performs each request against the
/// database and reports the answer to `advance`.
pub struct Insertion {
    data: JsonData,
    query: String,
    scope: Scope,
    phase: Phase,
}

/// An insertion as contracts see it: the description, how much of the
/// transaction it looks after, and the phase. The statement text is left
/// out: it is always the one of the description.
pub struct InsertionView {
    pub data: JsonDataView,
    pub scope: Scope,
    pub phase: PhaseView,
}

impl View for Insertion {
    type V = InsertionView;

    closed spec fn view(&self) -> InsertionView {
        InsertionView { data: self.data@, scope: self.scope, phase: self.phase@ }
    }
}

impl Insertion {
    #[verifier::type_invariant]
    spec fn well_formed(self) -> bool {
        &&& self.query@ == insert_statement(self.data@)
        &&& self.phase matches Phase::Executing(i) ==> i < self.data.table_rows.len()
        &&& self.scope == Scope::Rows ==> self.phase is Executing || self.phase is Finished
    }

    fn enter(data: JsonData, query: String, scope: Scope, i: usize) -> (next: (Insertion, Request))
        requires
            i <= data.table_rows.len(),
            query@ == insert_statement(data@),
        ensures
            next.0@.data == data@,
            next.0@.scope == scope,
            next.0@.phase == enter_row(data@, scope, i as int),
            next.1@ == request_of(data@, next.0@.phase),
    {
        if i >= data.table_rows.len() {
            return match scope {
                Scope::Transaction => (
                    Insertion { data, query, scope, phase: Phase::Committing },
                    Request::Commit,
                ),
                Scope::Rows => (
                    Insertion { data, query, scope, phase: Phase::Finished(Ok(())) },
                    Request::Stop,
                ),
            };
        }
        match bind(&data.table_columns, &data.table_rows[i], i) {
            Ok(arguments) => {
                let statement = query.clone();
                (
                    Insertion { data, query, scope, phase: Phase::Executing(i) },
                    Request::Execute { statement, arguments },
                )
            },
            Err(e) => Insertion::fail(data, query, scope, InsertError::Bind(e)),
        }
    }

    fn fail(data: JsonData, query: String, scope: Scope, cause: InsertError) -> (next: (
        Insertion,
        Request,
    ))
        requires
            query@ == insert_statement(data@),
        ensures
            next.0@.data == data@,
            next.0@.scope == scope,
            next.0@.phase == match scope {
                Scope::Transaction => PhaseView::RollingBack(cause@),
                Scope::Rows => PhaseView::Finished(Err(cause@)),
            },
            next.1@ == request_of(data@, next.0@.phase),
    {
        match scope {
            Scope::Transaction => (
                Insertion { data, query, scope, phase: Phase::RollingBack(cause) },
                Request::Rollback,
            ),
            Scope::Rows => (
                Insertion { data, query, scope, phase: Phase::Finished(Err(cause)) },
                Request::Stop,
            ),
        }
    }

    /// Takes the database's answer to the request under way and decides the
    /// next request. Once the insertion has ended it stays ended.
    pub fn advance(self, outcome: Outcome) -> (next: (Insertion, Request))
        ensures
            next.0@.data == self@.data,
            next.0@.scope == self@.scope,
            next.0@.phase == step(self@.data, self@.scope, self@.phase, outcome@),
            next.1@ == request_of(next.0@.data, next.0@.phase),
            self@.scope == Scope::Rows ==> next.1@ is Execute || next.1@ is Stop,
    {
        proof {
            use_type_invariant(&self);
        }
        let Insertion { data, query, scope, phase } = self;
        match phase {
            Phase::Beginning => match outcome {
                Outcome::Succeeded => Insertion::enter(data, query, scope, 0),
                Outcome::Failed(message) => (
                    Insertion {
                        data,
                        query,
                        scope,
                        phase: Phase::Finished(
                            Err(InsertError::Transaction { stage: Stage::Begin, message }),
                        ),
                    },
                    Request::Stop,
                ),
            },
            Phase::Executing(i) => match outcome {
                Outcome::Succeeded => Insertion::enter(data, query, scope, i + 1),
                Outcome::Failed(message) => Insertion::fail(
                    data,
                    query,
                    scope,
                    InsertError::Execution { row: i, message },
                ),
            },
            Phase::Committing => match outcome {
                Outcome::Succeeded => (
                    Insertion { data, query, scope, phase: Phase::Finished(Ok(())) },
                    Request::Stop,
                ),
                Outcome::Failed(message) => (
                    Insertion {
                        data,
                        query,
                        scope,
                        phase: Phase::Finished(
                            Err(InsertError::Transaction { stage: Stage::Commit, message }),
                        ),
                    },
                    Request::Stop,
                ),
            },
            Phase::RollingBack(cause) => match outcome {
                Outcome::Succeeded => (
                    Insertion { data, query, scope, phase: Phase::Finished(Err(cause)) },
                    Request::Stop,
                ),
                Outcome::Failed(message) => (
                    Insertion {
                        data,
                        query,
                        scope,
                        phase: Phase::Finished(
                            Err(InsertError::Transaction { stage: Stage::Rollback, message }),
                        ),
                    },
                    Request::Stop,
                ),
            },
            Phase::Finished(result) => (
                Insertion { data, query, scope, phase: Phase::Finished(result) },
                Request::Stop,
            ),
        }
    }

    /// How the insertion ended, if it has.
    pub fn outcome(self) -> (ended: Option<Result<(), InsertError>>)
        ensures
            match self@.phase {
                PhaseView::Finished(result) => ended matches Some(r) && result_view(r) == result,
                _ => ended.is_none(),
            },
    {
        match self.phase {
            Phase::Finished(result) => Some(result),
            _ => None,
        }
    }
}

/// Opens the insertion of a table description's rows in a transaction of
/// its own. The description is validated first: one that fails ends the
/// insertion at once, and nothing is asked of the database.
pub fn insert(data: JsonData) -> (opened: (Insertion, Request))
    ensures
        opened.0@.data == data@,
        opened.0@.scope == Scope::Transaction,
        opened.0@.phase == opening(data@),
        opened.1@ == request_of(data@, opened.0@.phase),
{
    let query = build_insert(&data);
    let scope = Scope::Transaction;
    match validate_json_data(&data) {
        Ok(_) => (Insertion { data, query, scope, phase: Phase::Beginning }, Request::Begin),
        Err(e) => (
            Insertion { data, query, scope, phase: Phase::Finished(Err(InsertError::Schema(e))) },
            Request::Stop,
        ),
    }
}

/// Takes up the rows of a table description inside a transaction that the
/// caller has begun and will commit or roll back. The insertion asks for
/// the statement to be executed, row by row, and for nothing else: it ends
/// in success once the last row is executed, at once where there is no
/// row, and it ends with the first row that fails to execute or to bind.
/// The description is not validated here.
pub fn insert_data(data: JsonData) -> (taken_up: (Insertion, Request))
    ensures
        taken_up.0@.data == data@,
        taken_up.0@.scope == Scope::Rows,
        taken_up.0@.phase == enter_row(data@, Scope::Rows, 0),
        taken_up.1@ == request_of(data@, taken_up.0@.phase),
        taken_up.1@ is Execute || taken_up.1@ is Stop,
{
    let query = build_insert(&data);
    Insertion::enter(data, query, Scope::Rows, 0)
}

/// Synthesises `n` rows for the columns of a description and opens their
/// insertion in a transaction of its own. Synthetic rows have one cell per
/// column, so only the column types are looked at: where one is not
/// recognised the insertion ends at once, and nothing is asked of the
/// database.
pub fn insert_random_data(data: JsonData, n: usize) -> (opened: (Insertion, Request))
    ensures
        opened.0@.data.table_name == data@.table_name,
        opened.0@.data.table_columns == data@.table_columns,
        opened.0@.data.table_rows.len() == n,
        rows_conform(opened.0@.data),
        opened.0@.scope == Scope::Transaction,
        opened.0@.phase == opening(opened.0@.data),
        opened.0@.phase == if columns_are_typed(data@.table_columns) {
            PhaseView::Beginning
        } else {
            PhaseView::Finished(Err(InsertErrorView::Schema(SchemaError::UnsupportedType)))
        },
        opened.1@ == request_of(opened.0@.data, opened.0@.phase),
{
    let generated = generate_random_data(data, n);
    let query = build_insert(&generated);
    let scope = Scope::Transaction;
    if validate_columns_data_type(&generated) {
        (Insertion { data: generated, query, scope, phase: Phase::Beginning }, Request::Begin)
    } else {
        let error = InsertError::Schema(SchemaError::UnsupportedType);
        (
            Insertion { data: generated, query, scope, phase: Phase::Finished(Err(error)) },
            Request::Stop,
        )
    }
}

} // verus!
