use json2csv::{get_header, process_line, Config};

fn cfg(cols: Vec<(&str, &str)>, flats: Vec<&str>, escape: bool, header: bool) -> Config {
    Config {
        header,
        string_escape: escape,
        columns: cols
            .into_iter()
            .map(|(a, b)| (a.to_string(), b.to_string()))
            .collect(),
        flat_path: flats.into_iter().map(|s| s.to_string()).collect(),
    }
}

#[test]
fn end_to_end_header_and_row() {
    let config = cfg(vec![("A", "a"), ("C", "b.c")], vec![], false, true);
    assert_eq!(get_header(&config), "A,C");
    let rows = process_line("{\"a\":1,\"b\":{\"c\":\"x\"}}", &config).unwrap();
    assert_eq!(rows, vec!["1,x".to_string()]);
}

#[test]
fn end_to_end_flatten() {
    let config = cfg(vec![("V", "v")], vec!["items"], false, false);
    let rows = process_line("{\"items\":[{\"v\":1},{\"v\":2}]}", &config).unwrap();
    assert_eq!(rows, vec!["1".to_string(), "2".to_string()]);
}

#[test]
fn resolution_miss_renders_empty_in_raw_mode() {
    let config = cfg(vec![("M", "zzz")], vec![], false, false);
    let rows = process_line("{\"a\":1}", &config).unwrap();
    assert_eq!(rows, vec!["".to_string()]);
}

#[test]
fn resolution_miss_renders_null_in_escaped_mode() {
    let config = cfg(vec![("M", "zzz")], vec![], true, false);
    let rows = process_line("{\"a\":1}", &config).unwrap();
    assert_eq!(rows, vec!["null".to_string()]);
}

#[test]
fn malformed_line_is_rejected() {
    let config = cfg(vec![("A", "a")], vec![], false, false);
    assert!(process_line("{oops", &config).is_none());
}

#[test]
fn raw_mode_renders_structured_cells_as_sentinels() {
    let config = cfg(vec![("O", "o"), ("L", "l")], vec![], false, false);
    let rows = process_line("{\"o\":{\"c\":\"x\"},\"l\":[1,2]}", &config).unwrap();
    assert_eq!(rows, vec!["[object_json],[list_json]".to_string()]);
}

#[test]
fn escaped_mode_renders_structured_cells_as_canonical_json() {
    let config = cfg(vec![("O", "o"), ("L", "l")], vec![], true, false);
    let rows = process_line("{\"o\":{\"c\":\"x\"},\"l\":[1,2]}", &config).unwrap();
    assert_eq!(rows, vec!["{\"c\":\"x\"},[1,2]".to_string()]);
}

#[test]
fn escaped_mode_quotes_text_cells() {
    let config = cfg(vec![("T", "t")], vec![], true, false);
    let rows = process_line("{\"t\":\"x\"}", &config).unwrap();
    assert_eq!(rows, vec!["\"x\"".to_string()]);
}

#[test]
fn escaped_mode_renders_scalars_as_literals() {
    let config = cfg(vec![("B", "b"), ("N", "n"), ("Z", "z")], vec![], true, false);
    let rows = process_line("{\"b\":true,\"n\":7,\"z\":null}", &config).unwrap();
    assert_eq!(rows, vec!["true,7,null".to_string()]);
}

#[test]
fn flatten_then_project_keeps_input_order() {
    let config = cfg(vec![("V", "v")], vec!["a", "b"], false, false);
    let line = "{\"a\":[{\"b\":[{\"v\":1},{\"v\":2}]},{\"b\":[{\"v\":3}]}]}";
    let rows = process_line(line, &config).unwrap();
    assert_eq!(
        rows,
        vec!["1".to_string(), "2".to_string(), "3".to_string()]
    );
}

#[test]
fn run_emits_header_exactly_once_before_rows() {
    let config = cfg(vec![("A", "a")], vec![], false, true);
    let input = vec!["{\"a\":1}".to_string(), "{\"a\":2}".to_string()];
    let out = json2csv::process_lines(&input, &config);
    assert!(!out.aborted);
    assert_eq!(
        out.lines,
        vec!["A".to_string(), "1".to_string(), "2".to_string()]
    );
}

#[test]
fn run_emits_header_even_without_rows() {
    let config = cfg(vec![("A", "a")], vec![], false, true);
    let out = json2csv::process_lines(&Vec::new(), &config);
    assert!(!out.aborted);
    assert_eq!(out.lines, vec!["A".to_string()]);
}

#[test]
fn run_aborts_at_first_malformed_line() {
    let config = cfg(vec![("A", "a")], vec![], false, false);
    let input = vec![
        "{\"a\":1}".to_string(),
        "not json {".to_string(),
        "{\"a\":3}".to_string(),
    ];
    let out = json2csv::process_lines(&input, &config);
    assert!(out.aborted);
    assert_eq!(out.lines, vec!["1".to_string()]);
}
