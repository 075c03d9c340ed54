//! Rendering of resolved values to cell text, and the bridge to the
//! `json` crate for parsing and canonical serialization.

use vstd::prelude::*;

use crate::value::Value;

verus! {

#[verifier::external_type_specification]
#[verifier::external_body]
pub struct ExJsonValue(json::JsonValue);

/// The canonical JSON text of a value, as the `json` crate's
/// `JsonValue::dump` prints it: a pure function of the value alone.
pub uninterp spec fn canon_of(v: Value) -> Seq<char>;

/// The value parsed from one line of text, as the `json` crate's `parse`
/// reads it, carried over into this crate's value model; `None` when the
/// line is not well-formed JSON.
pub uninterp spec fn parsed_of(s: Seq<char>) -> Option<Value>;

/// The raw rendering of a cell value: scalars as their plain text, `Null`
/// as the empty string, and fixed sentinels for the structured kinds.
pub open spec fn render_raw(v: Value) -> Seq<char> {
    match v {
        Value::Null => Seq::empty(),
        Value::Boolean(b) => if b {
            "true"@
        } else {
            "false"@
        },
        Value::Number(s) => s@,
        Value::Text(s) => s@,
        Value::List(_) => "[list_json]"@,
        Value::Object(_) => "[object_json]"@,
    }
}

/// The escaped rendering of a cell value: its canonical JSON text.  The
/// literals that `null` and the booleans print as are pinned; the other
/// kinds go by `canon_of`.
pub open spec fn render_escaped(v: Value) -> Seq<char> {
    match v {
        Value::Null => "null"@,
        Value::Boolean(b) => if b {
            "true"@
        } else {
            "false"@
        },
        _ => canon_of(v),
    }
}

/// The text of one cell under the run's rendering mode.
pub open spec fn render_text(v: Value, escape: bool) -> Seq<char> {
    if escape {
        render_escaped(v)
    } else {
        render_raw(v)
    }
}

/// Rebuilds the `json` crate's value from this crate's model, one
/// constructor per kind; number text goes back through `json::parse`.
#[verifier::external_body]
fn to_json(v: &Value) -> json::JsonValue {
    match v {
        Value::Null => json::JsonValue::Null,
        Value::Boolean(b) => json::JsonValue::Boolean(*b),
        Value::Number(s) => json::parse(s).unwrap_or(json::JsonValue::Null),
        Value::Text(s) => json::JsonValue::String(s.clone()),
        Value::List(es) => json::JsonValue::Array(es.iter().map(to_json).collect()),
        Value::Object(fs) => json::JsonValue::Object(
            fs.iter().map(|f| (f.0.as_str(), to_json(&f.1))).collect(),
        ),
    }
}

/// Relies on `json::JsonValue::dump`: the canonical, minified JSON text
/// of the value; `null` dumps as `null` and booleans as `true` / `false`.
#[verifier::external_body]
fn canonical_text(v: &Value) -> (r: String)
    ensures
        r@ == render_escaped(*v),
        !(*v is Null) && !(*v is Boolean) ==> r@ == canon_of(*v),
{
    to_json(v).dump()
}

/// Carries the `json` crate's parsed value over into this crate's model,
/// one arm per kind; numbers keep their printed decimal text.
#[verifier::external_body]
fn from_json(v: &json::JsonValue) -> Value {
    match v {
        json::JsonValue::Null => Value::Null,
        json::JsonValue::Boolean(b) => Value::Boolean(*b),
        json::JsonValue::Number(n) => Value::Number(n.to_string()),
        json::JsonValue::Short(s) => Value::Text(s.as_str().to_string()),
        json::JsonValue::String(s) => Value::Text(s.clone()),
        json::JsonValue::Array(a) => Value::List(a.iter().map(from_json).collect()),
        json::JsonValue::Object(o) => Value::Object(
            o.iter().map(|(k, m)| (k.to_string(), from_json(m))).collect(),
        ),
    }
}

/// Relies on `json::parse`: one line of text read as a JSON value, or
/// `None` when the line is not well-formed JSON.
#[verifier::external_body]
pub(crate) fn parse_record(line: &str) -> (r: Option<Value>)
    ensures
        r == parsed_of(line@),
{
    match json::parse(line) {
        Ok(v) => Some(from_json(&v)),
        Err(_) => None,
    }
}

/// Renders one resolved cell value: `None`, a resolution miss, renders as
/// `Null` does under either mode.
pub fn render_cell(v: Option<&Value>, escape: bool) -> (s: String)
    ensures
        s@ == render_text(
            match v {
                Some(x) => *x,
                None => Value::Null,
            },
            escape,
        ),
{
    match v {
        None => {
            if escape {
                canonical_text(&Value::Null)
            } else {
                String::new()
            }
        },
        Some(x) => {
            if escape {
                canonical_text(x)
            } else {
                match x {
                    Value::Null => String::new(),
                    Value::Boolean(b) => if *b {
                        String::from_str("true")
                    } else {
                        String::from_str("false")
                    },
                    Value::Number(s) => String::from_str(s.as_str()),
                    Value::Text(s) => String::from_str(s.as_str()),
                    Value::List(_) => String::from_str("[list_json]"),
                    Value::Object(_) => String::from_str("[object_json]"),
                }
            }
        },
    }
}

} // verus!
