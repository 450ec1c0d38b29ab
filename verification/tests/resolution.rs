use std::collections::BTreeMap;
use vrl::compiler::runtime::{Runtime, Terminate};
use vrl::compiler::{Program, TargetValueRef, TimeZone};
use vrl::diagnostic::Formatter;
use vrl::value::{KeyString, Secrets, Value};
use vrl_resolve::{
    resolve_compiled, resolve_with, CompilationCache, Compiled, ExecutionContext, Input, Outcome,
};

fn compile(source: &str) -> Compiled {
    match vrl::compiler::compile(source, &vrl::stdlib::all()) {
        Ok(result) => Ok(result.program),
        Err(diagnostics) => Err(Formatter::new(source, diagnostics).to_string()),
    }
}

fn run(
    runtime: &mut Runtime,
    program: &Program,
    document: &mut Value,
    metadata: &mut Value,
    secrets: &mut Secrets,
    zone: &TimeZone,
) -> Result<Value, Terminate> {
    let mut target = TargetValueRef { value: document, metadata, secrets };
    runtime.resolve(&mut target, program, zone)
}

fn resolve(input: Input, cache: &mut CompilationCache, context: &mut ExecutionContext) -> Outcome {
    resolve_with(input, cache, context, compile, run)
}

fn object(fields: Vec<(&str, Value)>) -> Value {
    let mut map: BTreeMap<KeyString, Value> = BTreeMap::new();
    for (name, value) in fields {
        map.insert(KeyString::from(name), value);
    }
    Value::Object(map)
}

fn request(program: &str, event: Option<Value>) -> Input {
    Input { program: program.to_owned(), event, tz: None }
}

#[test]
fn test_successful_resolution() {
    let test_cases: Vec<(Input, Outcome)> = vec![
        (
            Input { program: r#".foo = "bar""#.to_owned(), event: None, tz: None },
            Outcome::Success {
                result: object(vec![("foo", Value::from("bar"))]),
                output: Value::from("bar"),
            },
        ),
        (
            Input {
                program: r#".tags.environment = "production"; del(.delete_me)"#.to_owned(),
                event: Some(object(vec![("delete_me", Value::from("bye bye"))])),
                tz: None,
            },
            Outcome::Success {
                result: object(vec![(
                    "tags",
                    object(vec![("environment", Value::from("production"))]),
                )]),
                output: Value::from("bye bye"),
            },
        ),
    ];

    let mut cache = CompilationCache::new();
    let mut context = ExecutionContext::new();
    for tc in test_cases {
        assert_eq!(resolve(tc.0, &mut cache, &mut context), tc.1);
    }
}

#[test]
fn assignment_shows_in_output_and_document() {
    let mut cache = CompilationCache::new();
    let mut context = ExecutionContext::new();
    let outcome = resolve(request(".foo = \"bar\"", None), &mut cache, &mut context);
    assert_eq!(
        outcome,
        Outcome::Success {
            output: Value::from("bar"),
            result: object(vec![("foo", Value::from("bar"))]),
        }
    );
}

#[test]
fn deleted_field_is_the_output_and_leaves_the_document() {
    let mut cache = CompilationCache::new();
    let mut context = ExecutionContext::new();
    let outcome = resolve(
        request(
            ".tags.environment = \"production\"; del(.delete_me)",
            Some(object(vec![("delete_me", Value::from("bye bye"))])),
        ),
        &mut cache,
        &mut context,
    );
    assert_eq!(
        outcome,
        Outcome::Success {
            output: Value::from("bye bye"),
            result: object(vec![("tags", object(vec![("environment", Value::from("production"))]))]),
        }
    );
}

#[test]
fn given_document_is_what_the_program_reads() {
    let mut cache = CompilationCache::new();
    let mut context = ExecutionContext::new();
    let event = object(vec![("count", Value::Integer(41))]);
    let outcome = resolve(request("int!(.count) + 1", Some(event)), &mut cache, &mut context);
    assert_eq!(
        outcome,
        Outcome::Success {
            output: Value::Integer(42),
            result: object(vec![("count", Value::Integer(41))]),
        }
    );
}

#[test]
fn absent_document_is_an_empty_object() {
    let mut cache = CompilationCache::new();
    let mut context = ExecutionContext::new();
    let outcome = resolve(request(".", None), &mut cache, &mut context);
    assert_eq!(outcome, Outcome::Success { output: object(vec![]), result: object(vec![]) });
}

#[test]
fn program_that_does_not_compile_is_an_error() {
    let mut cache = CompilationCache::new();
    let mut context = ExecutionContext::new();
    let outcome = resolve(request(".foo = ", None), &mut cache, &mut context);
    match outcome {
        Outcome::Error(message) => {
            assert!(message.starts_with('\n'));
            assert!(message.contains("error"));
        }
        Outcome::Success { .. } => panic!("a program that does not compile cannot succeed"),
    }
    assert_eq!(cache.compilations(), 1);
    assert!(cache.contains(".foo = "));
}

#[test]
fn program_that_fails_while_running_is_an_error() {
    let mut cache = CompilationCache::new();
    let mut context = ExecutionContext::new();
    let event = object(vec![("message", Value::from("not json"))]);
    let outcome = resolve(
        request(". = parse_json!(.message)", Some(event)),
        &mut cache,
        &mut context,
    );
    assert_eq!(
        outcome,
        Outcome::Error(
            "function call error for \"parse_json\" at (4:25): unable to parse json: expected ident at line 1 column 2"
                .to_owned()
        )
    );
}

#[test]
fn failed_run_is_not_remembered_as_a_failure() {
    let mut cache = CompilationCache::new();
    let mut context = ExecutionContext::new();
    let program = ". = parse_json!(.message)";
    let bad = object(vec![("message", Value::from("not json"))]);
    let good = object(vec![("message", Value::from("{\"a\": 1}"))]);
    let first = resolve(request(program, Some(bad)), &mut cache, &mut context);
    assert!(matches!(first, Outcome::Error(_)));
    let second = resolve(request(program, Some(good)), &mut cache, &mut context);
    assert_eq!(
        second,
        Outcome::Success {
            output: object(vec![("a", Value::Integer(1))]),
            result: object(vec![("a", Value::Integer(1))]),
        }
    );
    assert_eq!(cache.compilations(), 1);
}

#[test]
fn metadata_starts_empty_on_every_call() {
    let mut cache = CompilationCache::new();
    let mut context = ExecutionContext::new();
    let write = resolve(request("%seen = true; %seen", None), &mut cache, &mut context);
    assert_eq!(write, Outcome::Success { output: Value::Boolean(true), result: object(vec![]) });
    let read = resolve(request("%seen", None), &mut cache, &mut context);
    assert_eq!(read, Outcome::Success { output: Value::Null, result: object(vec![]) });
}

#[test]
fn requested_time_zone_changes_nothing() {
    let program = "format_timestamp!(t'2021-02-03T04:05:06Z', \"%F %T\")";
    let mut cache = CompilationCache::new();
    let mut context = ExecutionContext::new();
    let plain = resolve(request(program, None), &mut cache, &mut context);
    let zoned = resolve(
        Input { program: program.to_owned(), event: None, tz: Some("Asia/Tokyo".to_owned()) },
        &mut cache,
        &mut context,
    );
    assert!(matches!(plain, Outcome::Success { .. }));
    assert_eq!(plain, zoned);
}

#[test]
fn lookup_and_run_apart_give_what_one_call_gives() {
    let program = ".tags.environment = \"production\"; del(.delete_me)";
    let event = || Some(object(vec![("delete_me", Value::from("bye bye"))]));

    let mut cache = CompilationCache::new();
    let mut context = ExecutionContext::new();
    let together = resolve(request(program, event()), &mut cache, &mut context);

    let mut other_cache = CompilationCache::new();
    let found = other_cache.lookup_or_compile_with(program, compile);
    let apart = resolve_compiled(found, event(), &None, &mut context, run);

    assert_eq!(together, apart);
    assert_eq!(
        apart,
        Outcome::Success {
            output: Value::from("bye bye"),
            result: object(vec![("tags", object(vec![("environment", Value::from("production"))]))]),
        }
    );
}

#[test]
fn failure_that_was_found_is_reported_and_nothing_runs() {
    let runs = std::cell::Cell::new(0u32);
    let counting = |runtime: &mut Runtime,
                    program: &Program,
                    document: &mut Value,
                    metadata: &mut Value,
                    secrets: &mut Secrets,
                    zone: &TimeZone| {
        runs.set(runs.get() + 1);
        run(runtime, program, document, metadata, secrets, zone)
    };
    let mut context = ExecutionContext::new();
    let outcome = resolve_compiled(Err("no good".to_owned()), None, &None, &mut context, counting);
    assert_eq!(outcome, Outcome::Error("no good".to_owned()));
    assert_eq!(runs.get(), 0);
}

#[test]
fn program_is_run_once_on_what_was_prepared() {
    let runs = std::cell::Cell::new(0u32);
    let watching = |runtime: &mut Runtime,
                    program: &Program,
                    document: &mut Value,
                    metadata: &mut Value,
                    secrets: &mut Secrets,
                    zone: &TimeZone| {
        runs.set(runs.get() + 1);
        assert!(runtime.is_empty());
        assert_eq!(*document, object(vec![]));
        assert_eq!(*metadata, object(vec![]));
        assert_eq!(*secrets, Secrets::new());
        assert_eq!(*zone, TimeZone::Local);
        run(runtime, program, document, metadata, secrets, zone)
    };
    let mut cache = CompilationCache::new();
    let mut context = ExecutionContext::new();
    let outcome = resolve_with(request(".a = 1", None), &mut cache, &mut context, compile, watching);
    assert_eq!(
        outcome,
        Outcome::Success {
            output: Value::Integer(1),
            result: object(vec![("a", Value::Integer(1))]),
        }
    );
    assert_eq!(runs.get(), 1);
}

#[test]
fn program_that_was_handed_out_outlives_its_entry() {
    let mut cache = match CompilationCache::with_capacity(1) {
        Some(cache) => cache,
        None => panic!("a cache of one place can be made"),
    };
    let mut context = ExecutionContext::new();
    let found = cache.lookup_or_compile_with(".kept = true", compile);
    assert!(cache.lookup_or_compile_with(".other = 1", compile).is_ok());
    assert!(!cache.contains(".kept = true"));
    let outcome = resolve_compiled(found, None, &None, &mut context, run);
    assert_eq!(
        outcome,
        Outcome::Success {
            output: Value::Boolean(true),
            result: object(vec![("kept", Value::Boolean(true))]),
        }
    );
}
