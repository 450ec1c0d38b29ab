use std::collections::BTreeMap;
use vrl::value::{KeyString, Value};
use vrl_resolve::{Input, RequestError};

fn object(fields: Vec<(&str, Value)>) -> Value {
    let mut map: BTreeMap<KeyString, Value> = BTreeMap::new();
    for (name, value) in fields {
        map.insert(KeyString::from(name), value);
    }
    Value::Object(map)
}

/// Takes a request body apart as the boundary does: the three fields that a
/// request may hold, each absent where the body does not name it.
fn parts(body: &str) -> (Option<String>, Option<Value>, Option<String>) {
    let json: serde_json::Value = match serde_json::from_str(body) {
        Ok(json) => json,
        Err(error) => panic!("{}", error),
    };
    let program = json.get("program").and_then(|field| field.as_str()).map(str::to_owned);
    let event = json.get("event").cloned().map(Value::from);
    let tz = json.get("tz").and_then(|field| field.as_str()).map(str::to_owned);
    (program, event, tz)
}

#[test]
fn test_failures() {
    let test_cases: Vec<&str> = vec![
        // No program or event
        r#"{"this": "won't work"}"#,
        // No program
        r#"{"event": {"tags": {"environment": "staging"}}}"#,
    ];

    for tc in test_cases {
        let (program, event, tz) = parts(tc);
        assert_eq!(Input::from_parts(program, event, tz), Err(RequestError::MissingProgram));
    }
}

#[test]
fn request_without_a_program_is_turned_away() {
    assert_eq!(Input::from_parts(None, None, None), Err(RequestError::MissingProgram));
    assert_eq!(
        Input::from_parts(None, Some(object(vec![])), Some("UTC".to_owned())),
        Err(RequestError::MissingProgram)
    );
}

#[test]
fn request_with_a_program_is_taken_as_it_is() {
    assert_eq!(
        Input::from_parts(Some(".a".to_owned()), None, None),
        Ok(Input { program: ".a".to_owned(), event: None, tz: None })
    );
    let (program, event, tz) =
        parts(r#"{"program": ".x = 1", "event": {"k": "v"}, "tz": "Europe/Paris"}"#);
    assert_eq!(
        Input::from_parts(program, event, tz),
        Ok(Input {
            program: ".x = 1".to_owned(),
            event: Some(object(vec![("k", Value::from("v"))])),
            tz: Some("Europe/Paris".to_owned()),
        })
    );
}

#[test]
fn empty_program_is_a_program() {
    assert_eq!(
        Input::from_parts(Some(String::new()), None, None),
        Ok(Input { program: String::new(), event: None, tz: None })
    );
}

#[test]
fn missing_program_has_its_message() {
    assert_eq!(RequestError::MissingProgram.message(), "missing field `program`");
}
