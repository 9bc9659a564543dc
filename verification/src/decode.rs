//! Backend cells and their decoding into canonical values.

use vstd::prelude::*;
use crate::text::same_text;
use crate::value::{copy_number, lemma_array_view, Number, Value, ValueView};

verus! {

/// A backend cell as the driver reports it: whether it is null, its declared
/// type name, and what each typed read of it gives (`None` where that read
/// fails).
#[derive(Clone, Debug, PartialEq)]
pub struct RawCell {
    pub null: bool,
    pub declared: String,
    pub boolean: Option<bool>,
    pub integer: Option<i64>,
    pub number: Option<Number>,
    pub text: Option<String>,
    pub bytes: Option<Vec<u8>>,
}

/// The decode strategy that a declared type name selects.
#[derive(Clone, Copy, Debug, PartialEq, Eq, Structural)]
pub enum Category {
    Boolean,
    Integer,
    Number,
    Text,
    Blob,
    Other,
}

/// The upper-case form of a text, as `str::to_uppercase` of std gives it.
pub uninterp spec fn upper_text(s: Seq<char>) -> Seq<char>;

/// `str::to_uppercase` of std: the text with each character replaced by its
/// Unicode upper-case form.
#[verifier::external_body]
fn uppercase(s: &str) -> (out: String)
    ensures
        out@ == upper_text(s@),
{
    s.to_uppercase()
}

/// The upper-case type names that are read as booleans.
pub open spec fn is_boolean_name(n: Seq<char>) -> bool {
    n == "BOOL"@ || n == "BOOLEAN"@
}

/// The upper-case type names that are read as 64-bit integers.
pub open spec fn is_integer_name(n: Seq<char>) -> bool {
    ||| n == "INTEGER"@
    ||| n == "INT"@
    ||| n == "INT4"@
    ||| n == "INT8"@
    ||| n == "BIGINT"@
    ||| n == "SMALLINT"@
    ||| n == "TINYINT"@
    ||| n == "MEDIUMINT"@
}

/// The upper-case type names that are read as doubles.
pub open spec fn is_number_name(n: Seq<char>) -> bool {
    ||| n == "REAL"@
    ||| n == "FLOAT"@
    ||| n == "FLOAT4"@
    ||| n == "FLOAT8"@
    ||| n == "DOUBLE"@
    ||| n == "DOUBLE PRECISION"@
    ||| n == "NUMERIC"@
    ||| n == "DECIMAL"@
}

/// The upper-case type names that are read as strings.
pub open spec fn is_text_name(n: Seq<char>) -> bool {
    ||| n == "TEXT"@
    ||| n == "VARCHAR"@
    ||| n == "CHAR"@
    ||| n == "BPCHAR"@
    ||| n == "NAME"@
    ||| n == "CITEXT"@
    ||| n == "LONGTEXT"@
    ||| n == "MEDIUMTEXT"@
    ||| n == "TINYTEXT"@
}

/// The upper-case type names that are read as byte sequences.
pub open spec fn is_blob_name(n: Seq<char>) -> bool {
    ||| n == "BLOB"@
    ||| n == "BYTEA"@
    ||| n == "BINARY"@
    ||| n == "VARBINARY"@
    ||| n == "LONGBLOB"@
    ||| n == "MEDIUMBLOB"@
    ||| n == "TINYBLOB"@
}

/// The category of an upper-case type name.
pub open spec fn category(name: Seq<char>) -> Category {
    if is_boolean_name(name) {
        Category::Boolean
    } else if is_integer_name(name) {
        Category::Integer
    } else if is_number_name(name) {
        Category::Number
    } else if is_text_name(name) {
        Category::Text
    } else if is_blob_name(name) {
        Category::Blob
    } else {
        Category::Other
    }
}

/// The bytes of a blob as integer values.
pub open spec fn byte_values(bytes: Seq<u8>) -> Seq<ValueView> {
    Seq::new(bytes.len(), |i: int| ValueView::Integer(bytes[i] as i64))
}

/// The value that a typed read gives, or the fallback where it failed.
pub open spec fn read_or(read: Option<ValueView>, fallback: ValueView) -> ValueView {
    match read {
        Some(v) => v,
        None => fallback,
    }
}

/// What the read that a category selects gives for a cell.
pub open spec fn typed_read(cell: RawCell, cat: Category) -> Option<ValueView> {
    match cat {
        Category::Boolean => match cell.boolean {
            Some(b) => Some(ValueView::Boolean(b)),
            None => None,
        },
        Category::Integer => match cell.integer {
            Some(i) => Some(ValueView::Integer(i)),
            None => None,
        },
        Category::Number => match cell.number {
            Some(n) => Some(ValueView::Number(n@)),
            None => None,
        },
        Category::Text | Category::Other => match cell.text {
            Some(s) => Some(ValueView::String(s@)),
            None => None,
        },
        Category::Blob => match cell.bytes {
            Some(b) => Some(ValueView::Array(byte_values(b@))),
            None => None,
        },
    }
}

/// The value of a cell whose type name has the given category: unit for a
/// null cell, else what the category's read gives, else the type name itself
/// as a string.
pub open spec fn decoded_as(cell: RawCell, cat: Category) -> ValueView {
    if cell.null {
        ValueView::Unit
    } else {
        read_or(typed_read(cell, cat), ValueView::String(cell.declared@))
    }
}

/// The value of a cell.
pub open spec fn decoded(cell: RawCell) -> ValueView {
    decoded_as(cell, category(upper_text(cell.declared@)))
}

/// The category of a type name that is already in upper case.
pub fn category_of(name: &str) -> (cat: Category)
    ensures
        cat == category(name@),
{
    if same_text(name, "BOOL") || same_text(name, "BOOLEAN") {
        Category::Boolean
    } else if same_text(name, "INTEGER") || same_text(name, "INT") || same_text(name, "INT4")
        || same_text(name, "INT8") || same_text(name, "BIGINT") || same_text(name, "SMALLINT")
        || same_text(name, "TINYINT") || same_text(name, "MEDIUMINT") {
        Category::Integer
    } else if same_text(name, "REAL") || same_text(name, "FLOAT") || same_text(name, "FLOAT4")
        || same_text(name, "FLOAT8") || same_text(name, "DOUBLE") || same_text(
        name,
        "DOUBLE PRECISION",
    ) || same_text(name, "NUMERIC") || same_text(name, "DECIMAL") {
        Category::Number
    } else if same_text(name, "TEXT") || same_text(name, "VARCHAR") || same_text(name, "CHAR")
        || same_text(name, "BPCHAR") || same_text(name, "NAME") || same_text(name, "CITEXT")
        || same_text(name, "LONGTEXT") || same_text(name, "MEDIUMTEXT") || same_text(
        name,
        "TINYTEXT",
    ) {
        Category::Text
    } else if same_text(name, "BLOB") || same_text(name, "BYTEA") || same_text(name, "BINARY")
        || same_text(name, "VARBINARY") || same_text(name, "LONGBLOB") || same_text(
        name,
        "MEDIUMBLOB",
    ) || same_text(name, "TINYBLOB") {
        Category::Blob
    } else {
        Category::Other
    }
}

/// The bytes of a blob as a list of integer values, each from 0 to 255.
pub fn blob_values(bytes: &Vec<u8>) -> (out: Value)
    ensures
        out@ == ValueView::Array(byte_values(bytes@)),
{
    let mut items: Vec<Value> = Vec::new();
    let mut i: usize = 0;
    while i < bytes.len()
        invariant
            i <= bytes.len(),
            items@.len() == i,
            forall|k: int| 0 <= k < i ==> items@[k]@ == ValueView::Integer(bytes@[k] as i64),
        decreases bytes.len() - i,
    {
        items.push(Value::Integer(bytes[i] as i64));
        i += 1;
    }
    proof {
        lemma_array_view(items);
        assert(crate::value::views(items@) =~= byte_values(bytes@));
    }
    Value::Array(items)
}

/// Decodes a cell by the strategy of a given category.
pub fn decode_as(cell: &RawCell, cat: Category) -> (value: Value)
    ensures
        value@ == decoded_as(*cell, cat),
{
    if cell.null {
        return Value::Unit;
    }
    match cat {
        Category::Boolean => {
            if let Some(b) = &cell.boolean {
                return Value::Boolean(*b);
            }
        },
        Category::Integer => {
            if let Some(i) = &cell.integer {
                return Value::Integer(*i);
            }
        },
        Category::Number => {
            if let Some(n) = &cell.number {
                return Value::Number(copy_number(n));
            }
        },
        Category::Text | Category::Other => {
            if let Some(s) = &cell.text {
                return Value::String(s.clone());
            }
        },
        Category::Blob => {
            if let Some(b) = &cell.bytes {
                return blob_values(b);
            }
        },
    }
    Value::String(cell.declared.clone())
}

/// The category of a declared type name, in whatever case it is written.
pub fn cell_category(declared: &str) -> (cat: Category)
    ensures
        cat == category(upper_text(declared@)),
{
    let upper = uppercase(declared);
    category_of(upper.as_str())
}

/// Decodes a backend cell into a canonical value. Never fails: a typed read
/// that fails gives the declared type name as a string.
pub fn sqlx_value_ref_to_agent_value(cell: &RawCell) -> (value: Value)
    ensures
        value@ == decoded(*cell),
        cell.null ==> value@ == ValueView::Unit,
        !cell.null && category(upper_text(cell.declared@)) == Category::Other && cell.text is None
            ==> value@ == ValueView::String(cell.declared@),
{
    if cell.null {
        return Value::Unit;
    }
    let cat = cell_category(cell.declared.as_str());
    decode_as(cell, cat)
}

} // verus!
