use json2csv::{flatten_record, Value};

fn item(n: &str) -> Value {
    Value::Object(vec![("v".to_string(), Value::Number(n.to_string()))])
}

fn record_with_items() -> Value {
    Value::Object(vec![(
        "items".to_string(),
        Value::List(vec![item("1"), item("2"), item("3")]),
    )])
}

#[test]
fn empty_flatten_spec_is_identity() {
    let out = flatten_record(record_with_items(), &vec![]);
    assert_eq!(out, vec![record_with_items()]);
}

#[test]
fn flatten_list_yields_its_elements_in_order() {
    let out = flatten_record(record_with_items(), &vec!["items".to_string()]);
    assert_eq!(out, vec![item("1"), item("2"), item("3")]);
}

#[test]
fn flatten_non_list_yields_nothing() {
    let v = Value::Object(vec![("items".to_string(), Value::Number("5".to_string()))]);
    let out = flatten_record(v, &vec!["items".to_string()]);
    assert_eq!(out, Vec::<Value>::new());
}

#[test]
fn flatten_missing_path_yields_nothing() {
    let out = flatten_record(record_with_items(), &vec!["absent".to_string()]);
    assert_eq!(out, Vec::<Value>::new());
}

fn nested() -> Value {
    Value::Object(vec![(
        "a".to_string(),
        Value::List(vec![
            Value::Object(vec![(
                "b".to_string(),
                Value::List(vec![item("1"), item("2")]),
            )]),
            Value::Object(vec![("b".to_string(), Value::List(vec![item("3")]))]),
        ]),
    )])
}

#[test]
fn two_stages_equal_stage_by_stage_expansion() {
    let composed = flatten_record(nested(), &vec!["a".to_string(), "b".to_string()]);
    let mut staged: Vec<Value> = Vec::new();
    for r in flatten_record(nested(), &vec!["a".to_string()]) {
        staged.extend(flatten_record(r, &vec!["b".to_string()]));
    }
    assert_eq!(composed, staged);
    assert_eq!(composed, vec![item("1"), item("2"), item("3")]);
}
