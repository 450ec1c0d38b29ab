//! Resolution: one request from program text to outcome.

use crate::cache::{faithful, gives_for, CompilationCache};
use crate::context::{
    execution_time_zone, reported, zone_named, ExecutionContext, RunView, CONFIGURED_ZONE,
};
use crate::document::{document_or_empty, fresh_side_channels, Input, Outcome};
use crate::engine::{holds_no_secret, is_empty_object, runtime_is_clear};
use crate::storage::{stored_view, Compiled, Stored};
use vrl::compiler::runtime::{Runtime, Terminate};
use vrl::compiler::{Program, TimeZone};
use vrl::value::{Secrets, Value};
use vstd::prelude::*;

verus! {

/// Whether `outcome` is what a resolution ends with after a run that is
/// reported as `ran` and left the document as `document`: the value beside
/// the document, or the message of the error.
pub open spec fn concludes(outcome: Outcome, ran: RunView, document: Value) -> bool {
    match ran {
        Ok(output) => outcome == (Outcome::Success { output, result: document }),
        Err(text) => outcome matches Outcome::Error(message) && message@ == text,
    }
}

/// Resolves `input`: obtains the compiled program from `cache`, compiling the
/// text with `compile` only if the cache keeps nothing for it, runs the
/// program with `run` in `context` against the document, and reports how
/// that went.
///
/// The compiler and the runtime of the language come in as `compile` and
/// `run`. `compile` gives the program of a text, or the message of its
/// diagnostics. `run` runs a program on a runtime against a document,
/// metadata and secrets, in a time zone.
///
/// What the call does to the cache is what looking the program text up does,
/// and nothing else: only compilations are remembered, never how a run went.
/// A text whose compilation failed is answered with the message of that
/// failure, now or remembered, and is not run. A text that compiled is run
/// once: against the document that was given, or an object without fields
/// where none was, with fresh metadata and secrets, in the configured time
/// zone. The outcome is the value the run ended with beside the document as
/// the run left it, or the message of the error that ended it. Nothing is
/// tried twice.
///
/// The cache is needed for the lookup only. Where it is shared, call
/// `CompilationCache::lookup_or_compile_with` while holding it and
/// `resolve_compiled` after letting go: together they are this function.
pub fn resolve_with<F, R>(
    input: Input,
    cache: &mut CompilationCache,
    context: &mut ExecutionContext,
    compile: F,
    run: R,
) -> (outcome: Outcome) where
    F: FnOnce(&str) -> Compiled,
    R: FnOnce(
        &mut Runtime,
        &Program,
        &mut Value,
        &mut Value,
        &mut Secrets,
        &TimeZone,
    ) -> Result<Value, Terminate>,

    requires
        forall|source: &str| source@ == input.program@ ==> #[trigger] compile.requires((source,)),
        forall|
            runtime: &mut Runtime,
            program: &Program,
            d: &mut Value,
            m: &mut Value,
            s: &mut Secrets,
            zone: &TimeZone,
        | #[trigger]
            run.requires((runtime, program, d, m, s, zone)),
    ensures
        old(cache)@.wf(),
        final(cache)@.wf(),
        final(cache)@ == old(cache)@.looked_up(input.program@, final(cache)@.latest()),
        final(cache)@.knows(input.program@),
        final(cache)@.kept(input.program@) == final(cache)@.latest(),
        old(cache)@.knows(input.program@) ==> final(cache)@.latest() == old(cache)@.kept(
            input.program@,
        ),
        !old(cache)@.knows(input.program@) ==> gives_for(
            compile,
            input.program@,
            final(cache)@.latest(),
        ),
        faithful(old(cache)@, compile) ==> faithful(final(cache)@, compile) && gives_for(
            compile,
            input.program@,
            final(cache)@.latest(),
        ),
        final(cache)@.latest() matches Err(message) ==> {
            &&& outcome matches Outcome::Error(told)
            &&& told@ == message
            &&& *final(context) == *old(context)
        },
        final(cache)@.latest() is Ok ==> final(context).is_clear(),
        final(cache)@.latest() is Ok ==> exists|
            runtime: &mut Runtime,
            d: &mut Value,
            m: &mut Value,
            s: &mut Secrets,
            ran: Result<Value, Terminate>,
        |
            {
                &&& old(context).is_clear() ==> runtime_is_clear(*runtime)
                &&& match input.event {
                    Some(given) => *d == given,
                    None => is_empty_object(*d),
                }
                &&& is_empty_object(*m)
                &&& holds_no_secret(*s)
                &&& #[trigger] run.ensures(
                    (
                        runtime,
                        &final(cache)@.latest()->Ok_0,
                        d,
                        m,
                        s,
                        &zone_named(CONFIGURED_ZONE@),
                    ),
                    ran,
                )
                &&& concludes(outcome, reported(ran), *final(d))
            },
{
    let Input { program, event, tz } = input;
    let found = cache.lookup_or_compile_with(program.as_str(), compile);
    resolve_compiled(found, event, &tz, context, run)
}

/// The part of a resolution that comes after the lookup: `found` is what the
/// cache answered for the program text.
///
/// A failure is reported with its message, and nothing is run. A program is
/// run once with `run` in `context`: against `event`, or an object without
/// fields where there is none, with fresh metadata and secrets, in the
/// configured time zone, whatever `tz` asks for. The outcome is the value the
/// run ended with beside the document as the run left it, or the message of
/// the error that ended it.
pub fn resolve_compiled<R>(
    found: Stored,
    event: Option<Value>,
    tz: &Option<String>,
    context: &mut ExecutionContext,
    run: R,
) -> (outcome: Outcome) where
    R: FnOnce(
        &mut Runtime,
        &Program,
        &mut Value,
        &mut Value,
        &mut Secrets,
        &TimeZone,
    ) -> Result<Value, Terminate>,

    requires
        forall|
            runtime: &mut Runtime,
            program: &Program,
            d: &mut Value,
            m: &mut Value,
            s: &mut Secrets,
            zone: &TimeZone,
        | #[trigger]
            run.requires((runtime, program, d, m, s, zone)),
    ensures
        stored_view(found) matches Err(message) ==> {
            &&& outcome matches Outcome::Error(told)
            &&& told@ == message
            &&& *final(context) == *old(context)
        },
        stored_view(found) is Ok ==> final(context).is_clear(),
        stored_view(found) is Ok ==> exists|
            runtime: &mut Runtime,
            d: &mut Value,
            m: &mut Value,
            s: &mut Secrets,
            ran: Result<Value, Terminate>,
        |
            {
                &&& old(context).is_clear() ==> runtime_is_clear(*runtime)
                &&& match event {
                    Some(given) => *d == given,
                    None => is_empty_object(*d),
                }
                &&& is_empty_object(*m)
                &&& holds_no_secret(*s)
                &&& #[trigger] run.ensures(
                    (runtime, &stored_view(found)->Ok_0, d, m, s, &zone_named(CONFIGURED_ZONE@)),
                    ran,
                )
                &&& concludes(outcome, reported(ran), *final(d))
            },
{
    let shared = match found {
        Ok(shared) => shared,
        Err(message) => {
            return Outcome::from_compile_error(message);
        },
    };
    let mut document = document_or_empty(event);
    let (mut metadata, mut secrets) = fresh_side_channels();
    let zone = execution_time_zone(tz);
    let ran = context.execute(&shared, &mut document, &mut metadata, &mut secrets, &zone, run);
    let outcome = Outcome::from_run(ran, document);
    assert(stored_view(found)->Ok_0 == *shared);
    assert(exists|
        runtime: &mut Runtime,
        d: &mut Value,
        m: &mut Value,
        s: &mut Secrets,
        ended: Result<Value, Terminate>,
    |
        {
            &&& old(context).is_clear() ==> runtime_is_clear(*runtime)
            &&& match event {
                Some(given) => *d == given,
                None => is_empty_object(*d),
            }
            &&& is_empty_object(*m)
            &&& holds_no_secret(*s)
            &&& #[trigger] run.ensures(
                (runtime, &stored_view(found)->Ok_0, d, m, s, &zone_named(CONFIGURED_ZONE@)),
                ended,
            )
            &&& concludes(outcome, reported(ended), *final(d))
        });
    outcome
}

} // verus!
