//! Table values and the operators over them: all rows, one row by index, a
//! projection onto named columns.

use vstd::prelude::*;
use crate::text::{
    chars_of, decimal, extend, extend_str, name_views, push_decimal, same_chars, same_text,
    string_of, trim_range, trimmed,
};
use crate::value::{
    copy_value, copy_values, lemma_array_view, lemma_object_view, texts, views, Value, ValueView,
};

verus! {

/// Why an operation gave nothing.
#[derive(Clone, Debug, PartialEq)]
pub enum EngineError {
    /// The backend failed; the text holds its own message.
    Io(String),
    /// A value does not have the shape that the operation needs.
    InvalidValue(String),
}

/// What an [`EngineError`] stands for in contracts.
pub enum ErrorView {
    Io(Seq<char>),
    InvalidValue(Seq<char>),
}

impl View for EngineError {
    type V = ErrorView;

    open spec fn view(&self) -> ErrorView {
        match self {
            EngineError::Io(m) => ErrorView::Io(m@),
            EngineError::InvalidValue(m) => ErrorView::InvalidValue(m@),
        }
    }
}

impl EngineError {
    /// The error's message.
    pub fn message(&self) -> (text: String)
        ensures
            self@ matches ErrorView::Io(m) ==> text@ == m,
            self@ matches ErrorView::InvalidValue(m) ==> text@ == m,
    {
        match self {
            EngineError::Io(m) => m.clone(),
            EngineError::InvalidValue(m) => m.clone(),
        }
    }
}

/// The view of an operation's result.
pub open spec fn result_view(r: Result<Value, EngineError>) -> Result<ValueView, ErrorView> {
    match r {
        Ok(v) => Ok(v@),
        Err(e) => Err(e@),
    }
}

/// The first position at or after `from` that holds `key`, or the length.
pub open spec fn key_index(keys: Seq<Seq<char>>, key: Seq<char>, from: int) -> int
    decreases keys.len() - from,
{
    if 0 <= from < keys.len() && keys[from] != key {
        key_index(keys, key, from + 1)
    } else {
        from
    }
}

/// The items of the array that an object holds under `key`; `None` where the
/// value is no object, has no such key, or holds something else there.
pub open spec fn array_field(v: ValueView, key: Seq<char>) -> Option<Seq<ValueView>> {
    match v {
        ValueView::Object { keys, values, json } => {
            let i = key_index(keys, key, 0);
            if 0 <= i < keys.len() && i < values.len() {
                match values[i] {
                    ValueView::Array(items) => Some(items),
                    _ => None,
                }
            } else {
                None
            }
        },
        _ => None,
    }
}

/// The table value with the given headers and rows.
pub open spec fn table_view(headers: Seq<Seq<char>>, rows: Seq<Seq<ValueView>>) -> ValueView {
    ValueView::Object {
        keys: seq!["headers"@, "rows"@],
        values: seq![
            ValueView::Array(Seq::new(headers.len(), |i: int| ValueView::String(headers[i]))),
            ValueView::Array(Seq::new(rows.len(), |i: int| ValueView::Array(rows[i]))),
        ],
        json: Seq::empty(),
    }
}

/// An affected-row count as a cell: itself, or the largest signed 64-bit
/// integer where it is beyond that.
pub open spec fn clamped(count: u64) -> i64 {
    if count <= i64::MAX as u64 {
        count as i64
    } else {
        i64::MAX
    }
}

/// The error for a value without a `rows` array.
pub open spec fn missing_rows() -> ErrorView {
    ErrorView::InvalidValue("Missing 'rows' field"@)
}

/// The error for a value without a `headers` array.
pub open spec fn missing_headers() -> ErrorView {
    ErrorView::InvalidValue("Missing 'headers' field"@)
}

/// All rows of a table value.
pub open spec fn rows_of(table: ValueView) -> Result<ValueView, ErrorView> {
    match array_field(table, "rows"@) {
        Some(rows) => Ok(ValueView::Array(rows)),
        None => Err(missing_rows()),
    }
}

/// A configured index as a position: a negative one wraps round to a
/// position beyond every table.
pub open spec fn wrapped_index(index: i64) -> nat {
    if index >= 0 {
        index as nat
    } else {
        (index + 0x1_0000_0000_0000_0000) as nat
    }
}

/// The row of a table value at a zero-based index.
pub open spec fn row_of(table: ValueView, index: i64) -> Result<ValueView, ErrorView> {
    match array_field(table, "rows"@) {
        None => Err(missing_rows()),
        Some(rows) => {
            let i = wrapped_index(index);
            if i < rows.len() {
                Ok(rows[i as int])
            } else {
                Err(ErrorView::InvalidValue("Row index "@ + decimal(i) + " out of bounds"@))
            }
        },
    }
}

/// The first position at or after `i` that holds a comma, or the length.
pub open spec fn comma_end(s: Seq<char>, i: int) -> int
    decreases s.len() - i,
{
    if 0 <= i < s.len() && s[i] != ',' {
        comma_end(s, i + 1)
    } else {
        i
    }
}

/// A piece ends between its start and the end of the list.
pub proof fn lemma_comma_end_bounds(s: Seq<char>, i: int)
    requires
        0 <= i <= s.len(),
    ensures
        i <= comma_end(s, i) <= s.len(),
    decreases s.len() - i,
{
    if i < s.len() && s[i] != ',' {
        lemma_comma_end_bounds(s, i + 1);
    }
}

/// The column names listed from position `i` on: the pieces between commas,
/// each without the white space at its ends.
pub open spec fn column_names(s: Seq<char>, i: int) -> Seq<Seq<char>>
    decreases s.len() - i,
    via column_names_decreases
{
    if i < 0 || i > s.len() {
        Seq::empty()
    } else {
        let e = comma_end(s, i);
        let name = trimmed(s.subrange(i, e));
        if e >= s.len() {
            seq![name]
        } else {
            seq![name] + column_names(s, e + 1)
        }
    }
}

#[via_fn]
proof fn column_names_decreases(s: Seq<char>, i: int) {
    if 0 <= i <= s.len() {
        lemma_comma_end_bounds(s, i);
    }
}

/// The first position at or after `from` whose header is the string `name`,
/// or the length.
pub open spec fn header_index(headers: Seq<ValueView>, name: Seq<char>, from: int) -> int
    decreases headers.len() - from,
{
    if 0 <= from < headers.len() && headers[from] != ValueView::String(name) {
        header_index(headers, name, from + 1)
    } else {
        from
    }
}

/// The first of the names from `from` on that no header has, or the length.
pub open spec fn first_unresolved(
    headers: Seq<ValueView>,
    names: Seq<Seq<char>>,
    from: int,
) -> int
    decreases names.len() - from,
{
    if 0 <= from < names.len() && header_index(headers, names[from], 0) < headers.len() {
        first_unresolved(headers, names, from + 1)
    } else {
        from
    }
}

/// A row cut down to the named columns, in the order of the names; unit
/// where the row is too short.
pub open spec fn projected(
    row: Seq<ValueView>,
    headers: Seq<ValueView>,
    names: Seq<Seq<char>>,
) -> Seq<ValueView> {
    Seq::new(
        names.len(),
        |k: int|
            {
                let i = header_index(headers, names[k], 0);
                if 0 <= i < row.len() {
                    row[i]
                } else {
                    ValueView::Unit
                }
            },
    )
}

/// Every row cut down to the named columns.
pub open spec fn selected_rows(
    rows: Seq<ValueView>,
    headers: Seq<ValueView>,
    names: Seq<Seq<char>>,
) -> Seq<ValueView> {
    Seq::new(
        rows.len(),
        |r: int| ValueView::Array(projected(rows[r]->Array_0, headers, names)),
    )
}

/// The projection of a table value onto the columns that `cols` lists.
pub open spec fn select_of(table: ValueView, cols: Seq<char>) -> Result<ValueView, ErrorView> {
    let names = column_names(cols, 0);
    match array_field(table, "headers"@) {
        None => Err(missing_headers()),
        Some(headers) => {
            let u = first_unresolved(headers, names, 0);
            if u < names.len() {
                Err(ErrorView::InvalidValue("Column '"@ + names[u] + "' not found"@))
            } else {
                match array_field(table, "rows"@) {
                    None => Err(missing_rows()),
                    Some(rows) => {
                        if exists|r: int| 0 <= r < rows.len() && !(rows[r] is Array) {
                            Err(ErrorView::InvalidValue("Row is not an array"@))
                        } else if rows.len() == 1 {
                            Ok(selected_rows(rows, headers, names)[0])
                        } else {
                            Ok(ValueView::Array(selected_rows(rows, headers, names)))
                        }
                    },
                }
            }
        },
    }
}

/// A row inside the table is returned as it stands; an index at or beyond
/// the number of rows, or a negative one, is an invalid-value error. This
/// holds of every table with fewer than 2^63 rows, which is every table that
/// fits in memory.
pub proof fn lemma_row_by_index(table: ValueView, index: i64)
    requires
        array_field(table, "rows"@) is Some,
        array_field(table, "rows"@)->0.len() < 0x8000_0000_0000_0000,
    ensures
        0 <= index < array_field(table, "rows"@)->0.len() ==> row_of(table, index) == Ok::<
            ValueView,
            ErrorView,
        >(array_field(table, "rows"@)->0[index as int]),
        index < 0 || index >= array_field(table, "rows"@)->0.len() ==> row_of(table, index) is Err,
{
}

/// A projection follows the order of the request, not that of the headers:
/// where every name is a header and every row an array, cell `k` of result
/// row `r` is the cell of row `r` under the first header named by the `k`-th
/// name. A result of exactly one row is that row itself; any other number of
/// rows comes as an array of rows.
pub proof fn lemma_select_order(table: ValueView, cols: Seq<char>)
    requires
        array_field(table, "headers"@) is Some,
        array_field(table, "rows"@) is Some,
        first_unresolved(array_field(table, "headers"@)->0, column_names(cols, 0), 0)
            >= column_names(cols, 0).len(),
        forall|r: int|
            0 <= r < array_field(table, "rows"@)->0.len() ==> array_field(
                table,
                "rows"@,
            )->0[r] is Array,
    ensures
        ({
            let headers = array_field(table, "headers"@)->0;
            let rows = array_field(table, "rows"@)->0;
            let names = column_names(cols, 0);
            let picked = selected_rows(rows, headers, names);
            &&& rows.len() == 1 ==> select_of(table, cols) == Ok::<ValueView, ErrorView>(picked[0])
            &&& rows.len() != 1 ==> select_of(table, cols) == Ok::<ValueView, ErrorView>(
                ValueView::Array(picked),
            )
            &&& picked.len() == rows.len()
            &&& forall|r: int, k: int|
                0 <= r < rows.len() && 0 <= k < names.len() ==> #[trigger] picked[r]->Array_0[k]
                    == (if header_index(headers, names[k], 0) < rows[r]->Array_0.len() {
                    rows[r]->Array_0[header_index(headers, names[k], 0)]
                } else {
                    ValueView::Unit
                })
        }),
{
    let headers = array_field(table, "headers"@)->0;
    let names = column_names(cols, 0);
    assert forall|k: int| 0 <= k < names.len() implies 0 <= header_index(headers, names[k], 0) by {
        lemma_header_index_bounds(headers, names[k], 0);
    }
}

/// A header search ends between its start and the number of headers.
pub proof fn lemma_header_index_bounds(headers: Seq<ValueView>, name: Seq<char>, from: int)
    requires
        0 <= from <= headers.len(),
    ensures
        from <= header_index(headers, name, from) <= headers.len(),
    decreases headers.len() - from,
{
    if from < headers.len() && headers[from] != ValueView::String(name) {
        lemma_header_index_bounds(headers, name, from + 1);
    }
}

/// The array that an object holds under `key`.
pub fn get_array<'a>(value: &'a Value, key: &str) -> (found: Option<&'a Vec<Value>>)
    ensures
        match found {
            Some(items) => array_field(value@, key@) == Some(views(items@)),
            None => array_field(value@, key@) is None,
        },
{
    match value {
        Value::Object { keys, values, json } => {
            proof {
                lemma_object_view(*keys, *values, *json);
            }
            let mut i: usize = 0;
            while i < keys.len()
                invariant
                    i <= keys.len(),
                    value@ == (ValueView::Object {
                        keys: texts(keys@),
                        values: views(values@),
                        json: json@,
                    }),
                    key_index(texts(keys@), key@, i as int) == key_index(texts(keys@), key@, 0),
                decreases keys.len() - i,
            {
                if same_text(keys[i].as_str(), key) {
                    if i < values.len() {
                        if let Value::Array(items) = &values[i] {
                            proof {
                                lemma_array_view(*items);
                            }
                            return Some(items);
                        }
                    }
                    return None;
                }
                i += 1;
            }
            None
        },
        _ => None,
    }
}

/// An invalid-value error with the given message.
fn invalid(message: &Vec<char>) -> (e: EngineError)
    ensures
        e@ == ErrorView::InvalidValue(message@),
{
    EngineError::InvalidValue(string_of(message))
}

/// All rows of a table value, as one array.
pub fn rows(table: &Value) -> (out: Result<Value, EngineError>)
    ensures
        result_view(out) == rows_of(table@),
{
    match get_array(table, "rows") {
        Some(items) => {
            let copy = copy_values(items);
            proof {
                lemma_array_view(copy);
            }
            Ok(Value::Array(copy))
        },
        None => Err(invalid(&chars_of("Missing 'rows' field"))),
    }
}

/// The row of a table value at a zero-based index. An index outside the
/// table, a negative one included, is an invalid-value error that names the
/// position asked for.
pub fn row(table: &Value, index: i64) -> (out: Result<Value, EngineError>)
    ensures
        result_view(out) == row_of(table@, index),
{
    match get_array(table, "rows") {
        None => Err(invalid(&chars_of("Missing 'rows' field"))),
        Some(items) => {
            let at: u64 = if index >= 0 {
                index as u64
            } else {
                u64::MAX - ((-(index + 1)) as u64)
            };
            assert(at as nat == wrapped_index(index));
            if at < items.len() as u64 {
                Ok(copy_value(&items[at as usize]))
            } else {
                let mut message = chars_of("Row index ");
                push_decimal(&mut message, at);
                extend_str(&mut message, " out of bounds");
                Err(invalid(&message))
            }
        },
    }
}

/// The column names that a comma-separated list holds.
pub fn split_columns(cols: &str) -> (names: Vec<Vec<char>>)
    ensures
        name_views(names@) == column_names(cols@, 0),
{
    let s = chars_of(cols);
    let mut names: Vec<Vec<char>> = Vec::new();
    let mut i: usize = 0;
    assert(name_views(names@) + column_names(s@, 0) =~= column_names(s@, 0));
    loop
        invariant
            i <= s.len(),
            s@ == cols@,
            name_views(names@) + column_names(s@, i as int) == column_names(s@, 0),
        decreases s.len() - i,
    {
        let mut e: usize = i;
        while e < s.len() && s[e] != ','
            invariant
                i <= e <= s.len(),
                comma_end(s@, e as int) == comma_end(s@, i as int),
            decreases s.len() - e,
        {
            e += 1;
        }
        let name = trim_range(&s, i, e);
        let ghost before = name_views(names@);
        names.push(name);
        assert(name_views(names@) =~= before + seq![name@]);
        if e >= s.len() {
            assert(before + seq![name@] =~= before + column_names(s@, i as int));
            return names;
        }
        assert(before + seq![name@] + column_names(s@, e + 1) =~= before + column_names(
            s@,
            i as int,
        ));
        i = e + 1;
    }
}

/// The position of the first header that is the string `name`, or the number
/// of headers.
pub fn find_header(headers: &Vec<Value>, name: &Vec<char>) -> (at: usize)
    ensures
        at == header_index(views(headers@), name@, 0),
        at <= headers.len(),
{
    let mut i: usize = 0;
    while i < headers.len()
        invariant
            i <= headers.len(),
            header_index(views(headers@), name@, i as int) == header_index(
                views(headers@),
                name@,
                0,
            ),
        decreases headers.len() - i,
    {
        if let Value::String(h) = &headers[i] {
            let hc = chars_of(h.as_str());
            if same_chars(&hc, name) {
                return i;
            }
        }
        i += 1;
    }
    i
}

/// One row cut down to the columns at the given header positions.
fn project_row(
    cells: &Vec<Value>,
    positions: &Vec<usize>,
    Ghost(headers): Ghost<Seq<ValueView>>,
    Ghost(names): Ghost<Seq<Seq<char>>>,
) -> (out: Value)
    requires
        positions@.len() == names.len(),
        forall|k: int|
            0 <= k < names.len() ==> positions@[k] as int == header_index(headers, names[k], 0),
    ensures
        out@ == ValueView::Array(projected(views(cells@), headers, names)),
{
    let mut picked: Vec<Value> = Vec::new();
    let mut k: usize = 0;
    while k < positions.len()
        invariant
            k <= positions.len(),
            positions@.len() == names.len(),
            picked@.len() == k,
            forall|j: int|
                0 <= j < names.len() ==> positions@[j] as int == header_index(
                    headers,
                    names[j],
                    0,
                ),
            forall|j: int| 0 <= j < k ==> picked@[j]@ == projected(views(cells@), headers, names)[j],
        decreases positions.len() - k,
    {
        let p = positions[k];
        if p < cells.len() {
            picked.push(copy_value(&cells[p]));
        } else {
            picked.push(Value::Unit);
        }
        k += 1;
    }
    proof {
        lemma_array_view(picked);
        assert(views(picked@) =~= projected(views(cells@), headers, names));
    }
    Value::Array(picked)
}

/// The projection of a table value onto named columns. `cols` lists the
/// names, separated by commas; each is matched against the headers exactly
/// and the first header of that name counts. Every row comes out with the
/// chosen cells in the order of `cols`. A result of exactly one row is that
/// row itself, not an array around it.
pub fn select(table: &Value, cols: &str) -> (out: Result<Value, EngineError>)
    ensures
        result_view(out) == select_of(table@, cols@),
{
    let names = split_columns(cols);
    let ghost name_seq = column_names(cols@, 0);
    let headers = match get_array(table, "headers") {
        Some(h) => h,
        None => {
            return Err(invalid(&chars_of("Missing 'headers' field")));
        },
    };
    let ghost header_seq = views(headers@);
    let mut positions: Vec<usize> = Vec::new();
    let mut k: usize = 0;
    while k < names.len()
        invariant
            k <= names.len(),
            positions@.len() == k,
            name_views(names@) == name_seq,
            name_seq == column_names(cols@, 0),
            header_seq == views(headers@),
            array_field(table@, "headers"@) == Some(header_seq),
            first_unresolved(header_seq, name_seq, k as int) == first_unresolved(
                header_seq,
                name_seq,
                0,
            ),
            forall|j: int|
                0 <= j < k ==> positions@[j] as int == header_index(header_seq, name_seq[j], 0),
        decreases names.len() - k,
    {
        assert(name_seq[k as int] == names@[k as int]@);
        let at = find_header(headers, &names[k]);
        if at >= headers.len() {
            let mut message = chars_of("Column '");
            extend(&mut message, &names[k]);
            extend_str(&mut message, "' not found");
            return Err(invalid(&message));
        }
        positions.push(at);
        k += 1;
    }
    let rows = match get_array(table, "rows") {
        Some(r) => r,
        None => {
            return Err(invalid(&chars_of("Missing 'rows' field")));
        },
    };
    let ghost row_seq = views(rows@);
    let mut picked: Vec<Value> = Vec::new();
    let mut r: usize = 0;
    while r < rows.len()
        invariant
            r <= rows.len(),
            picked@.len() == r,
            positions@.len() == name_seq.len(),
            row_seq == views(rows@),
            name_seq == column_names(cols@, 0),
            array_field(table@, "headers"@) == Some(header_seq),
            array_field(table@, "rows"@) == Some(row_seq),
            first_unresolved(header_seq, name_seq, 0) >= name_seq.len(),
            forall|j: int|
                0 <= j < name_seq.len() ==> positions@[j] as int == header_index(
                    header_seq,
                    name_seq[j],
                    0,
                ),
            forall|j: int| 0 <= j < r ==> row_seq[j] is Array,
            forall|j: int|
                0 <= j < r ==> picked@[j]@ == selected_rows(row_seq, header_seq, name_seq)[j],
        decreases rows.len() - r,
    {
        match &rows[r] {
            Value::Array(cells) => {
                proof {
                    lemma_array_view(*cells);
                }
                picked.push(project_row(cells, &positions, Ghost(header_seq), Ghost(name_seq)));
            },
            _ => {
                assert(!(row_seq[r as int] is Array));
                return Err(invalid(&chars_of("Row is not an array")));
            },
        }
        r += 1;
    }
    assert(views(picked@) =~= selected_rows(row_seq, header_seq, name_seq));
    if picked.len() == 1 {
        let only = picked.pop().unwrap();
        Ok(only)
    } else {
        proof {
            lemma_array_view(picked);
        }
        Ok(Value::Array(picked))
    }
}

} // verus!
