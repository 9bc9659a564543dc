use sqlx_tables::registry::{connect_error, Registry};
use sqlx_tables::render::{cozo_cell_to_text, escape_html, generate_html_table};
use sqlx_tables::table::EngineError;
use sqlx_tables::text::{join, push_decimal, push_signed_decimal, trim_range};
use sqlx_tables::value::{Number, Value};

fn text(s: &str) -> Value {
    Value::String(s.to_string())
}

fn tensor(n: usize) -> Value {
    Value::Tensor((0..n).map(|i| Number { bits: i as u64, text: format!("{}.5", i) }).collect())
}

#[test]
fn escape_replaces_the_five_characters() {
    assert_eq!(escape_html("a&b<c>d\"e'f"), "a&amp;b&lt;c&gt;d&quot;e&#39;f");
    assert_eq!(escape_html(""), "");
    assert_eq!(escape_html("plain é"), "plain é");
    assert_eq!(escape_html("&amp;"), "&amp;amp;");
}

#[test]
fn escaped_text_holds_no_markup() {
    let out = escape_html("<<\"'>>&<a href='x'>");
    assert!(!out.contains('<') && !out.contains('>') && !out.contains('"') && !out.contains('\''));
}

#[test]
fn rendered_cell_is_escaped() {
    let headers = vec![text("a")];
    let rows = vec![Value::Array(vec![text("<x>")])];
    let html = generate_html_table(Some(&headers), Some(&rows));
    assert!(html.contains("&lt;x&gt;"));
    assert!(!html.contains("<x>"));
}

#[test]
fn rendered_table_is_exact() {
    let headers = vec![text("a"), Value::Integer(1)];
    let rows = vec![Value::Array(vec![text("<x>"), Value::Unit]), Value::Integer(3)];
    let html = generate_html_table(Some(&headers), Some(&rows));
    let expected = "<table border=\"1\" style=\"border-collapse:collapse;\">\n\
<thead>\n<tr>\n<th>a</th>\n<th></th>\n</tr>\n</thead>\n\
<tbody>\n<tr>\n\
<td><pre style=\"margin:0;white-space:pre-wrap;\">&lt;x&gt;</pre></td>\n\
<td><pre style=\"margin:0;white-space:pre-wrap;\">null</pre></td>\n\
</tr>\n<tr>\n</tr>\n</tbody>\n</table>\n";
    assert_eq!(html, expected);
}

#[test]
fn sections_are_left_out_when_absent() {
    assert_eq!(
        generate_html_table(None, None),
        "<table border=\"1\" style=\"border-collapse:collapse;\">\n</table>\n"
    );
    let empty: Vec<Value> = vec![];
    assert_eq!(
        generate_html_table(Some(&empty), None),
        "<table border=\"1\" style=\"border-collapse:collapse;\">\n<thead>\n<tr>\n</tr>\n</thead>\n</table>\n"
    );
    assert_eq!(
        generate_html_table(None, Some(&empty)),
        "<table border=\"1\" style=\"border-collapse:collapse;\">\n<tbody>\n</tbody>\n</table>\n"
    );
}

#[test]
fn scalar_cells_have_their_plain_text() {
    assert_eq!(cozo_cell_to_text(&Value::Unit), "null");
    assert_eq!(cozo_cell_to_text(&Value::Boolean(true)), "true");
    assert_eq!(cozo_cell_to_text(&Value::Boolean(false)), "false");
    assert_eq!(cozo_cell_to_text(&Value::Integer(0)), "0");
    assert_eq!(cozo_cell_to_text(&Value::Integer(-120)), "-120");
    assert_eq!(cozo_cell_to_text(&Value::Integer(i64::MAX)), "9223372036854775807");
    assert_eq!(cozo_cell_to_text(&Value::Integer(i64::MIN)), "-9223372036854775808");
    assert_eq!(
        cozo_cell_to_text(&Value::Number(Number { bits: 0x3FF8000000000000, text: "1.5".into() })),
        "1.5"
    );
    assert_eq!(cozo_cell_to_text(&text("a b")), "a b");
}

#[test]
fn array_cells_are_joined_in_brackets() {
    let v = Value::Array(vec![
        Value::Integer(1),
        text("x"),
        Value::Array(vec![Value::Boolean(true), Value::Unit]),
        Value::Array(vec![]),
    ]);
    assert_eq!(cozo_cell_to_text(&v), "[1, x, [true, null], []]");
}

#[test]
fn object_and_opaque_cells_show_their_json() {
    let o = Value::Object {
        keys: vec!["k".to_string()],
        values: vec![Value::Integer(1)],
        json: "{\"k\":1}".to_string(),
    };
    assert_eq!(cozo_cell_to_text(&o), "{\"k\":1}");
    assert_eq!(cozo_cell_to_text(&Value::Opaque("{\"e\":\"x\"}".to_string())), "{\"e\":\"x\"}");
    assert_eq!(cozo_cell_to_text(&Value::Array(vec![o])), "[{\"k\":1}]");
}

#[test]
fn small_tensor_shows_every_element() {
    assert_eq!(cozo_cell_to_text(&tensor(0)), "[]");
    assert_eq!(cozo_cell_to_text(&tensor(2)), "[0.5, 1.5]");
    assert_eq!(
        cozo_cell_to_text(&tensor(10)),
        "[0.5, 1.5, 2.5, 3.5, 4.5, 5.5, 6.5, 7.5, 8.5, 9.5]"
    );
}

#[test]
fn large_tensor_shows_both_ends_and_its_size() {
    let shown = cozo_cell_to_text(&tensor(12));
    assert!(shown.contains("..."));
    assert!(shown.contains("size = 12"));
    assert_eq!(shown, "[0.5, 1.5, 2.5, 3.5, 4.5, ..., 7.5, 8.5, 9.5, 10.5, 11.5, size = 12]");
    assert_eq!(
        cozo_cell_to_text(&tensor(11)),
        "[0.5, 1.5, 2.5, 3.5, 4.5, ..., 6.5, 7.5, 8.5, 9.5, 10.5, size = 11]"
    );
}

#[test]
fn decimal_and_join_helpers() {
    let mut out = vec!['n', '='];
    push_decimal(&mut out, 0);
    push_decimal(&mut out, 1907);
    push_decimal(&mut out, u64::MAX);
    assert_eq!(out.iter().collect::<String>(), "n=0190718446744073709551615");
    let mut signed = Vec::new();
    push_signed_decimal(&mut signed, -45);
    assert_eq!(signed.iter().collect::<String>(), "-45");
    let parts = vec![vec!['a'], vec![], vec!['b', 'c']];
    assert_eq!(join(&parts, ", ").iter().collect::<String>(), "a, , bc");
    assert_eq!(join(&vec![], ", ").len(), 0);
    let s: Vec<char> = "x  a b \t,".chars().collect();
    assert_eq!(trim_range(&s, 1, 8).iter().collect::<String>(), "a b");
    assert_eq!(trim_range(&s, 1, 3).len(), 0);
}

#[test]
fn two_acquisitions_share_the_first_pool() {
    let mut registry: Registry<u32> = Registry::new();
    assert_eq!(registry.lookup(""), None);
    assert!(registry.register("", 1));
    assert_eq!(registry.lookup(""), Some(&1));
    assert!(!registry.register("", 2));
    assert_eq!(registry.lookup(""), Some(&1));
    assert_eq!(registry.lookup("sqlite::memory:"), Some(&1));
}

#[test]
fn pools_are_kept_by_canonical_url() {
    let mut registry: Registry<&str> = Registry::new();
    assert!(registry.register("mysql:host/db", "m"));
    assert!(registry.register("./a.db", "f"));
    assert!(!registry.register("mysql://host/db", "other"));
    assert_eq!(registry.lookup("mysql://host/db"), Some(&"m"));
    assert_eq!(registry.lookup("sqlite:./a.db?mode=rwc"), Some(&"f"));
    assert_eq!(registry.lookup("postgres:host/db"), None);
}

#[test]
fn drivers_are_installed_once() {
    let mut registry: Registry<u8> = Registry::new();
    assert!(registry.install_drivers());
    assert!(!registry.install_drivers());
    assert!(!registry.install_drivers());
    assert!(registry.register("x", 1));
    assert!(!registry.install_drivers());
    assert_eq!(registry.lookup("x"), Some(&1));
}

#[test]
fn connect_errors_carry_the_backend_message() {
    assert_eq!(
        connect_error("refused"),
        EngineError::Io("SQLx Error creating pool: refused".to_string())
    );
}
