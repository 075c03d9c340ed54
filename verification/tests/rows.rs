use json2csv::{get_header, project_row, render_cell, resolve, resolve_take, Config, Value};

fn text(s: &str) -> Value {
    Value::Text(s.to_string())
}

fn sample() -> Value {
    Value::Object(vec![
        ("a".to_string(), Value::Number("1".to_string())),
        (
            "b".to_string(),
            Value::Object(vec![("c".to_string(), text("x"))]),
        ),
    ])
}

fn cols(pairs: &[(&str, &str)]) -> Vec<(String, String)> {
    pairs
        .iter()
        .map(|(a, b)| (a.to_string(), b.to_string()))
        .collect()
}

#[test]
fn header_joins_labels_in_declared_order() {
    let config = Config {
        header: true,
        string_escape: true,
        columns: cols(&[("A", "a"), ("B", "b"), ("C", "c")]),
        flat_path: Vec::new(),
    };
    assert_eq!(get_header(&config), "A,B,C");
}

#[test]
fn header_of_no_columns_is_empty() {
    let config = Config {
        header: true,
        string_escape: true,
        columns: Vec::new(),
        flat_path: Vec::new(),
    };
    assert_eq!(get_header(&config), "");
}

#[test]
fn row_has_one_cell_per_column() {
    let row = project_row(&sample(), &cols(&[("X", "q"), ("Y", "q"), ("Z", "q")]), false);
    assert_eq!(row, ",,");
    assert_eq!(row.split(',').count(), 3);
}

#[test]
fn raw_row_renders_scalars_plainly() {
    let v = Value::Object(vec![
        ("b".to_string(), Value::Boolean(true)),
        ("n".to_string(), Value::Number("7".to_string())),
        ("s".to_string(), text("hi")),
        ("z".to_string(), Value::Null),
    ]);
    let row = project_row(&v, &cols(&[("B", "b"), ("N", "n"), ("S", "s"), ("Z", "z")]), false);
    assert_eq!(row, "true,7,hi,");
}

#[test]
fn resolve_walks_dotted_paths() {
    let v = sample();
    assert_eq!(resolve(&v, "b.c"), Some(&text("x")));
    assert_eq!(resolve(&v, "a"), Some(&Value::Number("1".to_string())));
    assert_eq!(resolve(&v, "b.zzz"), None);
    assert_eq!(resolve(&v, "a.b"), None);
}

#[test]
fn resolve_take_hands_the_sub_value_out() {
    assert_eq!(resolve_take(sample(), "b.c"), text("x"));
    assert_eq!(resolve_take(sample(), "nope"), Value::Null);
}

#[test]
fn render_cell_treats_a_miss_as_null() {
    assert_eq!(render_cell(None, false), "");
    assert_eq!(render_cell(None, true), "null");
    assert_eq!(render_cell(Some(&Value::Boolean(false)), false), "false");
    assert_eq!(render_cell(Some(&text("hi")), true), "\"hi\"");
}
