use std::collections::BTreeMap;
use vrl::compiler::runtime::{Runtime, Terminate};
use vrl::compiler::{Program, TargetValueRef, TimeZone};
use vrl::diagnostic::Formatter;
use vrl::value::{KeyString, Secrets, Value};
use vrl_resolve::{
    document_or_empty, execution_time_zone, fresh_side_channels, report, resolve_with,
    time_zone_named, zone_or_local, CompilationCache, Compiled, ExecutionContext, Input, Outcome,
    CONFIGURED_ZONE,
};

fn compile(source: &str) -> Compiled {
    match vrl::compiler::compile(source, &vrl::stdlib::all()) {
        Ok(result) => Ok(result.program),
        Err(diagnostics) => Err(Formatter::new(source, diagnostics).to_string()),
    }
}

fn run(
    runtime: &mut Runtime,
    program: &Program,
    document: &mut Value,
    metadata: &mut Value,
    secrets: &mut Secrets,
    zone: &TimeZone,
) -> Result<Value, Terminate> {
    let mut target = TargetValueRef { value: document, metadata, secrets };
    runtime.resolve(&mut target, program, zone)
}

fn object(fields: Vec<(&str, Value)>) -> Value {
    let mut map: BTreeMap<KeyString, Value> = BTreeMap::new();
    for (name, value) in fields {
        map.insert(KeyString::from(name), value);
    }
    Value::Object(map)
}

#[test]
fn absent_event_gives_an_object_without_fields() {
    assert_eq!(document_or_empty(None), Value::Object(BTreeMap::new()));
}

#[test]
fn given_event_is_taken_as_it_is() {
    let event = object(vec![("a", Value::Integer(1))]);
    assert_eq!(document_or_empty(Some(Value::Integer(5))), Value::Integer(5));
    assert_eq!(document_or_empty(Some(event)), object(vec![("a", Value::Integer(1))]));
}

#[test]
fn successful_run_becomes_success_with_the_document() {
    let outcome = Outcome::from_run(Ok(Value::Integer(3)), object(vec![("k", Value::Null)]));
    assert_eq!(
        outcome,
        Outcome::Success { output: Value::Integer(3), result: object(vec![("k", Value::Null)]) }
    );
}

#[test]
fn failed_run_becomes_error_with_the_message() {
    let outcome = Outcome::from_run(Err("boom".to_owned()), object(vec![]));
    assert_eq!(outcome, Outcome::Error("boom".to_owned()));
}

#[test]
fn compile_error_becomes_error_with_the_message() {
    assert_eq!(
        Outcome::from_compile_error("bad text".to_owned()),
        Outcome::Error("bad text".to_owned())
    );
}

#[test]
fn diagnostics_of_a_text_are_reported_as_the_compiler_rendered_them() {
    let expected = "\nerror[E105]: call to undefined function\n  ┌─ :1:1\n  │\n1 │ no_such_function()\n  │ ^^^^^^^^^^^^^^^^\n  │ │\n  │ undefined function\n  │ did you mean \"parse_duration\"?\n  │\n  = learn more about error code 105 at https://errors.vrl.dev/105\n  = see language documentation at https://vrl.dev\n  = try your code in the VRL REPL, learn more at https://vrl.dev/examples\n";
    let mut cache = CompilationCache::new();
    let mut context = ExecutionContext::new();
    let input = Input { program: "no_such_function()".to_owned(), event: None, tz: None };
    let outcome = resolve_with(input, &mut cache, &mut context, compile, run);
    assert_eq!(outcome, Outcome::Error(expected.to_owned()));
}

#[test]
fn value_of_a_run_is_reported_as_it_is() {
    assert_eq!(report(Ok(Value::Integer(9))), Ok(Value::Integer(9)));
    assert_eq!(report(Ok(Value::from("text"))), Ok(Value::from("text")));
}

#[test]
fn error_of_a_run_is_reported_as_its_message() {
    let program = match compile("parse_json!(.message)") {
        Ok(program) => program,
        Err(message) => panic!("{}", message),
    };
    let mut runtime = Runtime::default();
    let mut document = object(vec![("message", Value::from("{"))]);
    let (mut metadata, mut secrets) = fresh_side_channels();
    let ended = run(
        &mut runtime,
        &program,
        &mut document,
        &mut metadata,
        &mut secrets,
        &TimeZone::Local,
    );
    let error = match ended {
        Ok(value) => panic!("parsing half an object gave {:?}", value),
        Err(error) => error,
    };
    let text = error.to_string();
    assert!(text.starts_with("function call error for \"parse_json\""));
    assert_eq!(report(Err(error)), Err(text));
}

#[test]
fn context_runs_a_program_and_hands_back_its_value() {
    let program = match compile(".seen = true; 7") {
        Ok(program) => program,
        Err(message) => panic!("{}", message),
    };
    let mut context = ExecutionContext::new();
    let mut document = object(vec![]);
    let mut metadata = object(vec![]);
    let mut secrets = Secrets::new();
    let ran = context.execute(
        &program,
        &mut document,
        &mut metadata,
        &mut secrets,
        &TimeZone::Local,
        run,
    );
    assert_eq!(ran, Ok(Value::Integer(7)));
    assert_eq!(document, object(vec![("seen", Value::Boolean(true))]));
    assert_eq!(metadata, object(vec![]));
}

#[test]
fn context_reports_an_abort_as_a_message() {
    let program = match compile("abort") {
        Ok(program) => program,
        Err(message) => panic!("{}", message),
    };
    let mut context = ExecutionContext::new();
    let mut document = object(vec![]);
    let mut metadata = object(vec![]);
    let mut secrets = Secrets::new();
    let ran = context.execute(
        &program,
        &mut document,
        &mut metadata,
        &mut secrets,
        &TimeZone::Local,
        run,
    );
    match ran {
        Ok(value) => panic!("an aborted run gave {:?}", value),
        Err(message) => {
            assert_eq!(message, "aborted");
        }
    }
}

#[test]
fn context_is_reused_without_leaking_variables() {
    let first = match compile("x = 1; x") {
        Ok(program) => program,
        Err(message) => panic!("{}", message),
    };
    let second = match compile("y = 2; y") {
        Ok(program) => program,
        Err(message) => panic!("{}", message),
    };
    let mut context = ExecutionContext::new();
    let mut secrets = Secrets::new();
    let mut document = object(vec![]);
    let mut metadata = object(vec![]);
    let zone = TimeZone::Local;
    assert_eq!(
        context.execute(&first, &mut document, &mut metadata, &mut secrets, &zone, run),
        Ok(Value::Integer(1))
    );
    assert_eq!(
        context.execute(&second, &mut document, &mut metadata, &mut secrets, &zone, run),
        Ok(Value::Integer(2))
    );
    assert_eq!(
        context.execute(&first, &mut document, &mut metadata, &mut secrets, &zone, run),
        Ok(Value::Integer(1))
    );
}

#[test]
fn known_zone_name_gives_that_zone() {
    assert_eq!(String::from(time_zone_named("Europe/Paris")), "Europe/Paris");
    assert_eq!(String::from(time_zone_named("UTC")), "UTC");
    assert_eq!(time_zone_named("local"), TimeZone::Local);
    assert_eq!(time_zone_named(""), TimeZone::Local);
}

#[test]
fn configured_zone_is_no_known_zone() {
    assert_eq!(CONFIGURED_ZONE, "tt");
    assert_eq!(TimeZone::parse(CONFIGURED_ZONE), None);
    assert_eq!(time_zone_named(CONFIGURED_ZONE), TimeZone::Local);
}

#[test]
fn unknown_zone_name_falls_back_to_local() {
    assert_eq!(time_zone_named("tt"), TimeZone::Local);
    assert_eq!(time_zone_named("Mars/Olympus"), TimeZone::Local);
}

#[test]
fn parsed_zone_is_kept_and_a_failed_parse_is_local() {
    let paris = TimeZone::parse("Europe/Paris");
    assert!(paris.is_some());
    assert_eq!(Some(zone_or_local(paris)), paris);
    assert_eq!(zone_or_local(None), TimeZone::Local);
}

#[test]
fn execution_zone_ignores_the_request() {
    assert_eq!(execution_time_zone(&None), TimeZone::Local);
    assert_eq!(execution_time_zone(&Some("Europe/Paris".to_owned())), TimeZone::Local);
    assert_eq!(execution_time_zone(&Some("UTC".to_owned())), TimeZone::Local);
    assert_eq!(execution_time_zone(&Some("nonsense".to_owned())), TimeZone::Local);
}

#[test]
fn side_channels_start_empty() {
    let (metadata, secrets) = fresh_side_channels();
    assert_eq!(metadata, Value::Object(BTreeMap::new()));
    assert_eq!(secrets, Secrets::new());
    assert!(secrets.get("anything").is_none());
}

#[test]
fn new_context_is_idle() {
    assert!(ExecutionContext::new().is_idle());
}

#[test]
fn context_is_idle_again_after_a_run() {
    let program = match compile("x = 1; y = \"kept\"; [x, y]") {
        Ok(program) => program,
        Err(message) => panic!("{}", message),
    };
    let mut context = ExecutionContext::new();
    let (mut metadata, mut secrets) = fresh_side_channels();
    let mut document = object(vec![]);
    let ran = context.execute(
        &program,
        &mut document,
        &mut metadata,
        &mut secrets,
        &TimeZone::Local,
        run,
    );
    assert_eq!(ran, Ok(Value::Array(vec![Value::Integer(1), Value::from("kept")])));
    assert!(context.is_idle());
}

#[test]
fn context_is_idle_again_after_a_failed_run() {
    let program = match compile("x = 1; abort") {
        Ok(program) => program,
        Err(message) => panic!("{}", message),
    };
    let mut context = ExecutionContext::new();
    let (mut metadata, mut secrets) = fresh_side_channels();
    let mut document = object(vec![]);
    let ran = context.execute(
        &program,
        &mut document,
        &mut metadata,
        &mut secrets,
        &TimeZone::Local,
        run,
    );
    assert!(ran.is_err());
    assert!(context.is_idle());
}

