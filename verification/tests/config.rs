use json2csv::{parse_args, ConfigError};

fn strs(args: &[&str]) -> Vec<String> {
    args.iter().map(|s| s.to_string()).collect()
}

#[test]
fn defaults_with_no_arguments() {
    let c = parse_args(Vec::new()).unwrap();
    assert!(c.header);
    assert!(c.string_escape);
    assert!(c.columns.is_empty());
    assert!(c.flat_path.is_empty());
}

#[test]
fn flags_and_positional_column() {
    let c = parse_args(strs(&["--no-head", "--flat", "items", "V"])).unwrap();
    assert!(!c.header);
    assert!(c.string_escape);
    assert_eq!(c.flat_path, vec!["items".to_string()]);
    assert_eq!(c.columns, vec![("2".to_string(), "V".to_string())]);
}

#[test]
fn no_escape_flag() {
    let c = parse_args(strs(&["--no-escape", "a"])).unwrap();
    assert!(!c.string_escape);
    assert_eq!(c.columns, vec![("1".to_string(), "a".to_string())]);
}

#[test]
fn labelled_column_option() {
    let c = parse_args(strs(&["-c", "A", "a", "-c", "C", "b.c"])).unwrap();
    assert_eq!(
        c.columns,
        vec![
            ("A".to_string(), "a".to_string()),
            ("C".to_string(), "b.c".to_string())
        ]
    );
}

#[test]
fn positional_labels_count_every_scanned_argument() {
    let c = parse_args(strs(&["a", "--no-head", "b"])).unwrap();
    assert_eq!(
        c.columns,
        vec![
            ("0".to_string(), "a".to_string()),
            ("2".to_string(), "b".to_string())
        ]
    );
}

#[test]
fn positional_labels_reach_two_digits() {
    let args: Vec<String> = (0..11).map(|_| "p".to_string()).collect();
    let c = parse_args(args).unwrap();
    assert_eq!(c.columns.len(), 11);
    assert_eq!(c.columns[10].0, "10".to_string());
}

#[test]
fn missing_flat_path_is_reported() {
    let e = parse_args(strs(&["--flat"])).unwrap_err();
    assert_eq!(e, ConfigError::MissingFlatPath);
    assert_eq!(e.message(), "Not found flat path");
}

#[test]
fn missing_column_key_is_reported() {
    let e = parse_args(strs(&["-c"])).unwrap_err();
    assert_eq!(e, ConfigError::MissingColumnKey);
    assert_eq!(e.message(), "Not found key argument");
}

#[test]
fn missing_column_path_is_reported() {
    let e = parse_args(strs(&["-c", "A"])).unwrap_err();
    assert_eq!(e, ConfigError::MissingColumnPath);
    assert_eq!(e.message(), "Not found path argument");
}

#[test]
fn flatten_paths_keep_declared_order() {
    let c = parse_args(strs(&["--flat", "a", "--flat", "b"])).unwrap();
    assert_eq!(c.flat_path, vec!["a".to_string(), "b".to_string()]);
}
