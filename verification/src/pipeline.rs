//! From what the backend hands back to the table value of a statement.

use vstd::prelude::*;
use crate::classify::{returns_rows, script_returns_rows};
use crate::decode::{decoded, sqlx_value_ref_to_agent_value, RawCell};
use crate::table::{
    array_field, clamped, key_index, result_view, table_view, EngineError, ErrorView,
};
use crate::text::{chars_of, extend_str, string_of};
use crate::value::{lemma_array_view, lemma_object_view, texts, views, Value, ValueView};

verus! {

/// One fetched row: its column names and its cells, in the backend's order.
#[derive(Clone, Debug, PartialEq)]
pub struct FetchedRow {
    pub columns: Vec<String>,
    pub cells: Vec<RawCell>,
}

impl FetchedRow {
    /// The row has one cell for each of its columns.
    pub open spec fn well_formed(&self) -> bool {
        self.cells@.len() == self.columns@.len()
    }
}

/// Every row is well formed and has the columns of the first row: what one
/// result set of a backend looks like.
pub open spec fn one_result_set(rows: Seq<FetchedRow>) -> bool {
    forall|r: int|
        0 <= r < rows.len() ==> (#[trigger] rows[r]).well_formed() && texts(rows[r].columns@)
            == texts(rows[0].columns@)
}

/// Whether a value is an array of `n` items.
pub open spec fn is_row_of(v: ValueView, n: nat) -> bool {
    v is Array && v->Array_0.len() == n
}

/// What the backend handed back for one statement.
#[derive(Clone, Debug, PartialEq)]
pub enum Outcome {
    /// The rows of a query, in result order.
    Rows(Vec<FetchedRow>),
    /// The number of rows that a mutating statement affected.
    Affected(u64),
    /// The backend's message for a failed connection, bind, execute or fetch.
    Failed(String),
}

/// What to do with a script.
#[derive(Clone, Copy, Debug, PartialEq, Eq, Structural)]
pub enum Plan {
    /// The script is empty: nothing is run and nothing comes out.
    Skip,
    /// Run it as a query and fetch every row.
    Query,
    /// Run it as a mutating statement and take the affected-row count.
    Execute,
}

/// The plan for a script.
pub open spec fn planned(script: Seq<char>) -> Plan {
    if script.len() == 0 {
        Plan::Skip
    } else if returns_rows(script) {
        Plan::Query
    } else {
        Plan::Execute
    }
}

/// Decides how a script is run: not at all where it is empty, as a query
/// where its first word says that rows come back, as a mutating statement
/// otherwise.
pub fn plan_statement(script: &str) -> (plan: Plan)
    ensures
        plan == planned(script@),
{
    if script.unicode_len() == 0 {
        Plan::Skip
    } else if script_returns_rows(script) {
        Plan::Query
    } else {
        Plan::Execute
    }
}

/// The values of a row's cells.
pub open spec fn decoded_cells(cells: Seq<RawCell>) -> Seq<ValueView> {
    Seq::new(cells.len(), |i: int| decoded(cells[i]))
}

/// The table of a query's rows: the headers are the column names of the
/// first row, or none where no row came back.
pub open spec fn fetched_table(rows: Seq<FetchedRow>) -> ValueView {
    table_view(
        if rows.len() > 0 {
            texts(rows[0].columns@)
        } else {
            Seq::empty()
        },
        Seq::new(rows.len(), |r: int| decoded_cells(rows[r].cells@)),
    )
}

/// The one-cell table that reports how many rows a statement affected.
pub open spec fn affected_table(count: u64) -> ValueView {
    table_view(seq!["rows_affected"@], seq![seq![ValueView::Integer(clamped(count))]])
}

/// The result of a statement for what the backend handed back.
pub open spec fn statement_result(outcome: Outcome) -> Result<ValueView, ErrorView> {
    match outcome {
        Outcome::Rows(rows) => Ok(fetched_table(rows@)),
        Outcome::Affected(count) => Ok(affected_table(count)),
        Outcome::Failed(message) => Err(ErrorView::Io("SQLx Error: "@ + message@)),
    }
}

/// A table value holds its headers and its rows as the two arrays that the
/// table operators read.
pub proof fn lemma_table_fields(headers: Seq<Seq<char>>, rows: Seq<Seq<ValueView>>)
    ensures
        array_field(table_view(headers, rows), "headers"@) == Some(
            Seq::new(headers.len(), |i: int| ValueView::String(headers[i])),
        ),
        array_field(table_view(headers, rows), "rows"@) == Some(
            Seq::new(rows.len(), |i: int| ValueView::Array(rows[i])),
        ),
{
    reveal_strlit("headers");
    reveal_strlit("rows");
    let keys = seq!["headers"@, "rows"@];
    assert("headers"@.len() != "rows"@.len());
    assert(key_index(keys, "headers"@, 0) == 0);
    assert(key_index(keys, "rows"@, 1) == 1);
    assert(key_index(keys, "rows"@, 0) == 1);
}

/// The table of a query keeps the backend's order: header `c` is the name of
/// column `c` of the first row, and cell `c` of row `r` is the decoded cell
/// `c` of fetched row `r`. Where the rows are one result set, every row of
/// the table is as long as the headers.
pub proof fn lemma_fetched_table_shape(rows: Seq<FetchedRow>)
    requires
        rows.len() > 0,
    ensures
        ({
            let table = fetched_table(rows);
            let headers = array_field(table, "headers"@);
            let body = array_field(table, "rows"@);
            &&& headers is Some
            &&& body is Some
            &&& headers->0.len() == rows[0].columns@.len()
            &&& body->0.len() == rows.len()
            &&& forall|c: int|
                0 <= c < headers->0.len() ==> #[trigger] headers->0[c] == ValueView::String(
                    rows[0].columns@[c]@,
                )
            &&& forall|r: int|
                0 <= r < rows.len() ==> #[trigger] body->0[r] == ValueView::Array(
                    decoded_cells(rows[r].cells@),
                )
            &&& one_result_set(rows) ==> forall|r: int|
                0 <= r < rows.len() ==> is_row_of(#[trigger] body->0[r], headers->0.len())
        }),
{
    lemma_table_fields(
        texts(rows[0].columns@),
        Seq::new(rows.len(), |r: int| decoded_cells(rows[r].cells@)),
    );
    if one_result_set(rows) {
        assert forall|r: int| 0 <= r < rows.len() implies is_row_of(
            #[trigger] array_field(fetched_table(rows), "rows"@)->0[r],
            array_field(fetched_table(rows), "headers"@)->0.len(),
        ) by {
            assert(rows[r].well_formed());
            assert(texts(rows[r].columns@).len() == texts(rows[0].columns@).len());
        }
    }
}

/// The pseudo-table of a mutating statement has the one header
/// `rows_affected` and one row of one integer cell, which is never negative.
pub proof fn lemma_affected_table_shape(count: u64)
    ensures
        array_field(affected_table(count), "headers"@) == Some(
            seq![ValueView::String("rows_affected"@)],
        ),
        array_field(affected_table(count), "rows"@) == Some(
            seq![ValueView::Array(seq![ValueView::Integer(clamped(count))])],
        ),
        0 <= clamped(count),
        count <= i64::MAX ==> clamped(count) == count,
{
    lemma_table_fields(seq!["rows_affected"@], seq![seq![ValueView::Integer(clamped(count))]]);
    assert(array_field(affected_table(count), "headers"@)->0 =~= seq![
        ValueView::String("rows_affected"@),
    ]);
    assert(array_field(affected_table(count), "rows"@)->0 =~= seq![
        ValueView::Array(seq![ValueView::Integer(clamped(count))]),
    ]);
}

/// The table value with the given header and row arrays.
fn table_value(headers: Vec<Value>, rows: Vec<Value>) -> (table: Value)
    ensures
        table@ == (ValueView::Object {
            keys: seq!["headers"@, "rows"@],
            values: seq![ValueView::Array(views(headers@)), ValueView::Array(views(rows@))],
            json: Seq::empty(),
        }),
{
    let mut keys: Vec<String> = Vec::new();
    keys.push("headers".to_string());
    keys.push("rows".to_string());
    let mut values: Vec<Value> = Vec::new();
    proof {
        lemma_array_view(headers);
        lemma_array_view(rows);
    }
    values.push(Value::Array(headers));
    values.push(Value::Array(rows));
    let json = String::new();
    proof {
        lemma_object_view(keys, values, json);
        assert(texts(keys@) =~= seq!["headers"@, "rows"@]);
        assert(views(values@) =~= seq![
            ValueView::Array(views(headers@)),
            ValueView::Array(views(rows@)),
        ]);
    }
    Value::Object { keys, values, json }
}

/// The pseudo-table of a mutating statement: the header `rows_affected` and
/// one row with the count, clamped to the largest signed 64-bit integer.
pub fn rows_affected_to_table(rows_affected: u64) -> (table: Value)
    ensures
        table@ == affected_table(rows_affected),
{
    let count: i64 = if rows_affected <= 9223372036854775807u64 {
        rows_affected as i64
    } else {
        i64::MAX
    };
    let mut headers: Vec<Value> = Vec::new();
    headers.push(Value::String("rows_affected".to_string()));
    let mut cells: Vec<Value> = Vec::new();
    cells.push(Value::Integer(count));
    proof {
        lemma_array_view(cells);
        assert(views(cells@) =~= seq![ValueView::Integer(clamped(rows_affected))]);
    }
    let mut rows: Vec<Value> = Vec::new();
    rows.push(Value::Array(cells));
    let table = table_value(headers, rows);
    proof {
        let want = affected_table(rows_affected);
        assert(table@->Object_values[0]->Array_0 =~= want->Object_values[0]->Array_0);
        assert(table@->Object_values[1]->Array_0 =~= want->Object_values[1]->Array_0);
        assert(table@->Object_values =~= want->Object_values);
    }
    table
}

/// One fetched row as an array of decoded cells, column by column.
pub fn sqlx_row_to_agent_value(row: &FetchedRow) -> (out: Value)
    ensures
        out@ == ValueView::Array(decoded_cells(row.cells@)),
{
    let mut cells: Vec<Value> = Vec::new();
    let mut i: usize = 0;
    while i < row.cells.len()
        invariant
            i <= row.cells.len(),
            cells@.len() == i,
            forall|k: int| 0 <= k < i ==> cells@[k]@ == decoded(row.cells@[k]),
        decreases row.cells.len() - i,
    {
        cells.push(sqlx_value_ref_to_agent_value(&row.cells[i]));
        i += 1;
    }
    proof {
        lemma_array_view(cells);
        assert(views(cells@) =~= decoded_cells(row.cells@));
    }
    Value::Array(cells)
}

/// Whether every row of a table value is an array as long as its headers.
pub open spec fn rows_match_headers(table: ValueView) -> bool {
    match (array_field(table, "headers"@), array_field(table, "rows"@)) {
        (Some(headers), Some(rows)) => forall|r: int|
            0 <= r < rows.len() ==> is_row_of(#[trigger] rows[r], headers.len()),
        _ => false,
    }
}

/// The table of a query's rows. Where the rows are one result set, every row
/// of the table is as long as its headers.
pub fn rows_to_table(fetched: &Vec<FetchedRow>) -> (table: Value)
    ensures
        table@ == fetched_table(fetched@),
        one_result_set(fetched@) ==> rows_match_headers(table@),
{
    proof {
        if fetched@.len() > 0 {
            lemma_fetched_table_shape(fetched@);
        } else {
            lemma_table_fields(Seq::empty(), Seq::new(0, |r: int| decoded_cells(fetched@[r].cells@)));
        }
    }
    let mut headers: Vec<Value> = Vec::new();
    if fetched.len() > 0 {
        let first = &fetched[0];
        let mut c: usize = 0;
        while c < first.columns.len()
            invariant
                c <= first.columns.len(),
                headers@.len() == c,
                forall|k: int| 0 <= k < c ==> headers@[k]@ == ValueView::String(first.columns@[k]@),
            decreases first.columns.len() - c,
        {
            headers.push(Value::String(first.columns[c].clone()));
            c += 1;
        }
    }
    let mut rows: Vec<Value> = Vec::new();
    let mut r: usize = 0;
    while r < fetched.len()
        invariant
            r <= fetched.len(),
            rows@.len() == r,
            forall|k: int|
                0 <= k < r ==> rows@[k]@ == ValueView::Array(decoded_cells(fetched@[k].cells@)),
        decreases fetched.len() - r,
    {
        rows.push(sqlx_row_to_agent_value(&fetched[r]));
        r += 1;
    }
    let table = table_value(headers, rows);
    proof {
        let want = fetched_table(fetched@);
        assert(table@->Object_values[0]->Array_0 =~= want->Object_values[0]->Array_0);
        assert(table@->Object_values[1]->Array_0 =~= want->Object_values[1]->Array_0);
        assert(table@->Object_values =~= want->Object_values);
    }
    table
}

/// The result of one statement: the table of a query's rows, the pseudo-table
/// of a mutating statement, or one I/O error that carries the backend's
/// message. No partial table comes back.
pub fn run_sqlx_statement(outcome: &Outcome) -> (out: Result<Value, EngineError>)
    ensures
        result_view(out) == statement_result(*outcome),
        outcome matches Outcome::Rows(fetched) && one_result_set(fetched@) ==> out is Ok
            && rows_match_headers(out->Ok_0@),
        outcome is Affected ==> out is Ok && rows_match_headers(out->Ok_0@),
{
    proof {
        if let Outcome::Affected(count) = outcome {
            lemma_affected_table_shape(*count);
        }
    }
    match outcome {
        Outcome::Rows(fetched) => Ok(rows_to_table(fetched)),
        Outcome::Affected(count) => Ok(rows_affected_to_table(*count)),
        Outcome::Failed(message) => {
            let mut text = chars_of("SQLx Error: ");
            extend_str(&mut text, message.as_str());
            Err(EngineError::Io(string_of(&text)))
        },
    }
}

} // verus!
