//! Rendering of table values as HTML.

use vstd::prelude::*;
use crate::text::{
    chars_of, decimal, extend, extend_str, join, joined, name_views, push_decimal,
    push_signed_decimal, signed_decimal, string_of,
};
use crate::value::{lemma_array_view, lemma_object_view, Number, NumberView, Value, ValueView, views, numbers};

verus! {

/// What stands for one character in HTML text: an entity for each of
/// `& < > " '`, the character itself otherwise.
pub open spec fn escaped_char(c: char) -> Seq<char> {
    if c == '&' {
        "&amp;"@
    } else if c == '<' {
        "&lt;"@
    } else if c == '>' {
        "&gt;"@
    } else if c == '"' {
        "&quot;"@
    } else if c == '\'' {
        "&#39;"@
    } else {
        seq![c]
    }
}

/// A text with every character escaped for HTML.
pub open spec fn escaped(s: Seq<char>) -> Seq<char>
    decreases s.len(),
{
    if s.len() == 0 {
        Seq::empty()
    } else {
        escaped(s.drop_last()) + escaped_char(s.last())
    }
}

/// The texts of a tensor's elements.
pub open spec fn number_texts(items: Seq<NumberView>) -> Seq<Seq<char>> {
    Seq::new(items.len(), |i: int| items[i].text)
}

/// The text of a tensor: all elements where there are at most ten, else the
/// first five and the last five around an ellipsis, and the size.
pub open spec fn tensor_text(items: Seq<NumberView>) -> Seq<char> {
    let parts = number_texts(items);
    if items.len() <= 10 {
        "["@ + joined(parts, ", "@) + "]"@
    } else {
        "["@ + joined(parts.take(5) + seq!["..."@] + parts.skip(parts.len() - 5), ", "@)
            + ", size = "@ + decimal(items.len()) + "]"@
    }
}

/// The text of a cell.
pub open spec fn cell_text(v: ValueView) -> Seq<char>
    decreases v,
{
    match v {
        ValueView::Unit => "null"@,
        ValueView::Boolean(b) => if b {
            "true"@
        } else {
            "false"@
        },
        ValueView::Integer(i) => signed_decimal(i as int),
        ValueView::Number(n) => n.text,
        ValueView::String(s) => s,
        ValueView::Array(items) => "["@ + joined(cell_texts(items), ", "@) + "]"@,
        ValueView::Object { keys, values, json } => json,
        ValueView::Tensor(items) => tensor_text(items),
        ValueView::Opaque(json) => json,
    }
}

/// The texts of a list of cells.
pub open spec fn cell_texts(items: Seq<ValueView>) -> Seq<Seq<char>>
    decreases items,
{
    Seq::new(
        items.len(),
        |i: int|
            if 0 <= i < items.len() {
                cell_text(items[i])
            } else {
                Seq::empty()
            },
    )
}

/// The text of a header: a string's text, nothing for any other value.
pub open spec fn header_text(v: ValueView) -> Seq<char> {
    match v {
        ValueView::String(s) => s,
        _ => Seq::empty(),
    }
}

/// The markup of the first `n` header cells.
pub open spec fn header_cells(headers: Seq<ValueView>, n: int) -> Seq<char>
    decreases n,
{
    if n <= 0 {
        Seq::empty()
    } else {
        header_cells(headers, n - 1) + "<th>"@ + escaped(header_text(headers[n - 1])) + "</th>\n"@
    }
}

/// The markup of the first `n` cells of a row.
pub open spec fn data_cells(cells: Seq<ValueView>, n: int) -> Seq<char>
    decreases n,
{
    if n <= 0 {
        Seq::empty()
    } else {
        data_cells(cells, n - 1) + "<td><pre style=\"margin:0;white-space:pre-wrap;\">"@ + escaped(
            cell_text(cells[n - 1]),
        ) + "</pre></td>\n"@
    }
}

/// The markup of one row; a row that is no array has no cells.
pub open spec fn row_html(row: ValueView) -> Seq<char> {
    "<tr>\n"@ + (match row {
        ValueView::Array(cells) => data_cells(cells, cells.len() as int),
        _ => Seq::empty(),
    }) + "</tr>\n"@
}

/// The markup of the first `n` rows.
pub open spec fn body_rows(rows: Seq<ValueView>, n: int) -> Seq<char>
    decreases n,
{
    if n <= 0 {
        Seq::empty()
    } else {
        body_rows(rows, n - 1) + row_html(rows[n - 1])
    }
}

/// The header section, where there are headers.
pub open spec fn head_html(headers: Option<Seq<ValueView>>) -> Seq<char> {
    match headers {
        Some(h) => "<thead>\n<tr>\n"@ + header_cells(h, h.len() as int) + "</tr>\n</thead>\n"@,
        None => Seq::empty(),
    }
}

/// The body section, where there are rows.
pub open spec fn body_html(rows: Option<Seq<ValueView>>) -> Seq<char> {
    match rows {
        Some(r) => "<tbody>\n"@ + body_rows(r, r.len() as int) + "</tbody>\n"@,
        None => Seq::empty(),
    }
}

/// The HTML table for optional headers and rows.
pub open spec fn table_html(
    headers: Option<Seq<ValueView>>,
    rows: Option<Seq<ValueView>>,
) -> Seq<char> {
    "<table border=\"1\" style=\"border-collapse:collapse;\">\n"@ + head_html(headers) + body_html(
        rows,
    ) + "</table>\n"@
}

/// The views of optional items.
pub open spec fn opt_views(items: Option<&Vec<Value>>) -> Option<Seq<ValueView>> {
    match items {
        Some(v) => Some(views(v@)),
        None => None,
    }
}

/// Whether a character is one of those that HTML text may not hold as
/// itself, the ampersand aside.
pub open spec fn is_markup(c: char) -> bool {
    c == '<' || c == '>' || c == '"' || c == '\''
}

/// Escaped text holds none of `< > " '`, whatever the text was.
pub proof fn lemma_escaped_has_no_markup(s: Seq<char>)
    ensures
        forall|i: int| 0 <= i < escaped(s).len() ==> !is_markup(#[trigger] escaped(s)[i]),
    decreases s.len(),
{
    reveal_strlit("&amp;");
    reveal_strlit("&lt;");
    reveal_strlit("&gt;");
    reveal_strlit("&quot;");
    reveal_strlit("&#39;");
    if s.len() > 0 {
        lemma_escaped_has_no_markup(s.drop_last());
        let head = escaped(s.drop_last());
        let tail = escaped_char(s.last());
        assert forall|i: int| 0 <= i < escaped(s).len() implies !is_markup(
            #[trigger] escaped(s)[i],
        ) by {
            if i < head.len() {
                assert(escaped(s)[i] == head[i]);
            } else {
                assert(escaped(s)[i] == tail[i - head.len()]);
            }
        }
    }
}

/// Escaping works piece by piece: the escaped form of two texts in a row is
/// their escaped forms in a row.
pub proof fn lemma_escaped_concat(a: Seq<char>, b: Seq<char>)
    ensures
        escaped(a + b) == escaped(a) + escaped(b),
    decreases b.len(),
{
    if b.len() == 0 {
        assert(a + b =~= a);
        assert(escaped(a) + escaped(b) =~= escaped(a));
    } else {
        lemma_escaped_concat(a, b.drop_last());
        assert((a + b).drop_last() =~= a + b.drop_last());
        assert((a + b).last() == b.last());
        assert(escaped(a + b) =~= escaped(a) + escaped(b));
    }
}

/// The escaped form of a list of characters.
pub fn escape_chars(text: &Vec<char>) -> (out: Vec<char>)
    ensures
        out@ == escaped(text@),
{
    let mut out: Vec<char> = Vec::new();
    let mut i: usize = 0;
    while i < text.len()
        invariant
            i <= text.len(),
            out@ == escaped(text@.take(i as int)),
        decreases text.len() - i,
    {
        let c = text[i];
        proof {
            assert(text@.take(i + 1).drop_last() =~= text@.take(i as int));
            assert(text@.take(i + 1).last() == c);
        }
        if c == '&' {
            extend_str(&mut out, "&amp;");
        } else if c == '<' {
            extend_str(&mut out, "&lt;");
        } else if c == '>' {
            extend_str(&mut out, "&gt;");
        } else if c == '"' {
            extend_str(&mut out, "&quot;");
        } else if c == '\'' {
            extend_str(&mut out, "&#39;");
        } else {
            let ghost before = out@;
            out.push(c);
            assert(out@ =~= before + seq![c]);
        }
        i += 1;
    }
    assert(text@.take(text.len() as int) =~= text@);
    out
}

/// Escapes a text for HTML: `& < > " '` become entities.
pub fn escape_html(text: &str) -> (out: String)
    ensures
        out@ == escaped(text@),
{
    let chars = chars_of(text);
    let out = escape_chars(&chars);
    string_of(&out)
}

/// The text of a tensor, as a list of characters.
fn tensor_chars(items: &Vec<Number>) -> (out: Vec<char>)
    ensures
        out@ == tensor_text(numbers(items@)),
{
    let n = items.len();
    let ghost parts = number_texts(numbers(items@));
    let mut shown: Vec<Vec<char>> = Vec::new();
    let mut out = chars_of("[");
    if n <= 10 {
        let mut i: usize = 0;
        while i < n
            invariant
                i <= n,
                n == items.len(),
                shown@.len() == i,
                forall|k: int| 0 <= k < i ==> shown@[k]@ == items@[k].text@,
            decreases n - i,
        {
            shown.push(chars_of(items[i].text.as_str()));
            i += 1;
        }
        assert(name_views(shown@) =~= parts);
        let body = join(&shown, ", ");
        extend(&mut out, &body);
        extend_str(&mut out, "]");
    } else {
        let mut i: usize = 0;
        while i < 5
            invariant
                i <= 5,
                10 < n == items.len(),
                shown@.len() == i,
                forall|k: int| 0 <= k < i ==> shown@[k]@ == items@[k].text@,
            decreases 5 - i,
        {
            shown.push(chars_of(items[i].text.as_str()));
            i += 1;
        }
        shown.push(chars_of("..."));
        let mut j: usize = n - 5;
        while j < n
            invariant
                n - 5 <= j <= n,
                10 < n == items.len(),
                shown@.len() == 6 + (j - (n - 5)),
                forall|k: int| 0 <= k < 5 ==> shown@[k]@ == items@[k].text@,
                shown@[5]@ == "..."@,
                forall|k: int| n - 5 <= k < j ==> shown@[6 + (k - (n - 5))]@ == items@[k].text@,
            decreases n - j,
        {
            shown.push(chars_of(items[j].text.as_str()));
            j += 1;
        }
        proof {
            let want = parts.take(5) + seq!["..."@] + parts.skip(parts.len() - 5);
            assert(name_views(shown@).len() == want.len());
            assert forall|k: int| 0 <= k < want.len() implies name_views(shown@)[k] == want[k] by {
                if k >= 6 {
                    let src = k - 6 + (n - 5);
                    assert(shown@[6 + (src - (n - 5))]@ == items@[src].text@);
                }
            }
            assert(name_views(shown@) =~= want);
        }
        let body = join(&shown, ", ");
        extend(&mut out, &body);
        extend_str(&mut out, ", size = ");
        push_decimal(&mut out, n as u64);
        extend_str(&mut out, "]");
    }
    out
}

/// The texts of a list of cells.
fn cells_chars(items: &Vec<Value>) -> (shown: Vec<Vec<char>>)
    ensures
        shown@.len() == items@.len(),
        forall|k: int| 0 <= k < items@.len() ==> shown@[k]@ == cell_text(items@[k]@),
    decreases items,
{
    let mut shown: Vec<Vec<char>> = Vec::new();
    let mut i: usize = 0;
    while i < items.len()
        invariant
            i <= items.len(),
            shown@.len() == i,
            forall|k: int| 0 <= k < i ==> shown@[k]@ == cell_text(items@[k]@),
        decreases items.len() - i,
    {
        proof {
            broadcast use vstd::std_specs::vec::axiom_vec_index_decreases;

        }
        shown.push(cell_chars(&items[i]));
        i += 1;
    }
    shown
}

/// The text of a cell, as a list of characters.
pub fn cell_chars(value: &Value) -> (out: Vec<char>)
    ensures
        out@ == cell_text(value@),
    decreases value,
{
    match value {
        Value::Unit => chars_of("null"),
        Value::Boolean(b) => if *b {
            chars_of("true")
        } else {
            chars_of("false")
        },
        Value::Integer(i) => {
            let mut out: Vec<char> = Vec::new();
            push_signed_decimal(&mut out, *i);
            assert(out@ =~= signed_decimal(*i as int));
            out
        },
        Value::Number(n) => chars_of(n.text.as_str()),
        Value::String(s) => chars_of(s.as_str()),
        Value::Array(items) => {
            let shown = cells_chars(items);
            proof {
                lemma_array_view(*items);
                let inner = views(items@);
                assert(name_views(shown@) =~= cell_texts(inner));
            }
            let mut out = chars_of("[");
            let body = join(&shown, ", ");
            extend(&mut out, &body);
            extend_str(&mut out, "]");
            out
        },
        Value::Object { keys, values, json } => {
            proof {
                lemma_object_view(*keys, *values, *json);
            }
            chars_of(json.as_str())
        },
        Value::Tensor(items) => tensor_chars(items),
        Value::Opaque(json) => chars_of(json.as_str()),
    }
}

/// The text that a cell is shown as.
pub fn cozo_cell_to_text(value: &Value) -> (out: String)
    ensures
        out@ == cell_text(value@),
{
    let chars = cell_chars(value);
    string_of(&chars)
}

/// The markup of a table's header cells.
fn header_chars(headers: &Vec<Value>) -> (out: Vec<char>)
    ensures
        out@ == header_cells(views(headers@), headers@.len() as int),
{
    let mut out: Vec<char> = Vec::new();
    let mut i: usize = 0;
    while i < headers.len()
        invariant
            i <= headers.len(),
            out@ == header_cells(views(headers@), i as int),
        decreases headers.len() - i,
    {
        let text = match &headers[i] {
            Value::String(s) => chars_of(s.as_str()),
            _ => Vec::new(),
        };
        assert(text@ =~= header_text(views(headers@)[i as int]));
        let cell = escape_chars(&text);
        extend_str(&mut out, "<th>");
        extend(&mut out, &cell);
        extend_str(&mut out, "</th>\n");
        i += 1;
    }
    out
}

/// The markup of one row.
fn row_chars(row: &Value) -> (out: Vec<char>)
    ensures
        out@ == row_html(row@),
{
    let mut out = chars_of("<tr>\n");
    let mut inner: Vec<char> = Vec::new();
    if let Value::Array(cells) = row {
        proof {
            lemma_array_view(*cells);
        }
        let mut i: usize = 0;
        while i < cells.len()
            invariant
                i <= cells.len(),
                inner@ == data_cells(views(cells@), i as int),
            decreases cells.len() - i,
        {
            let text = cell_chars(&cells[i]);
            let cell = escape_chars(&text);
            extend_str(&mut inner, "<td><pre style=\"margin:0;white-space:pre-wrap;\">");
            extend(&mut inner, &cell);
            extend_str(&mut inner, "</pre></td>\n");
            i += 1;
        }
    }
    extend(&mut out, &inner);
    extend_str(&mut out, "</tr>\n");
    out
}

/// Renders headers and rows as one HTML table: a header section where there
/// are headers, a body section where there are rows, every text escaped and
/// every cell in a preformatted element.
pub fn generate_html_table(headers: Option<&Vec<Value>>, rows: Option<&Vec<Value>>) -> (html:
    String)
    ensures
        html@ == table_html(opt_views(headers), opt_views(rows)),
{
    let mut out = chars_of("<table border=\"1\" style=\"border-collapse:collapse;\">\n");
    let mut head: Vec<char> = Vec::new();
    if let Some(h) = headers {
        extend_str(&mut head, "<thead>\n<tr>\n");
        let cells = header_chars(h);
        extend(&mut head, &cells);
        extend_str(&mut head, "</tr>\n</thead>\n");
        assert(head@ =~= head_html(opt_views(headers)));
    }
    extend(&mut out, &head);
    let mut body: Vec<char> = Vec::new();
    if let Some(r) = rows {
        extend_str(&mut body, "<tbody>\n");
        let mut inner: Vec<char> = Vec::new();
        let mut i: usize = 0;
        while i < r.len()
            invariant
                i <= r.len(),
                inner@ == body_rows(views(r@), i as int),
            decreases r.len() - i,
        {
            let one = row_chars(&r[i]);
            extend(&mut inner, &one);
            i += 1;
        }
        extend(&mut body, &inner);
        extend_str(&mut body, "</tbody>\n");
        assert(body@ =~= body_html(opt_views(rows)));
    }
    extend(&mut out, &body);
    extend_str(&mut out, "</table>\n");
    string_of(&out)
}

} // verus!
