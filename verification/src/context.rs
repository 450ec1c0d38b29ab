//! The execution context: the runtime that a worker keeps between calls, and
//! the time zone that executions use.

use crate::engine::{
    fresh_runtime, local_time_zone, parsed_time_zone, runtime_is_clear, termination_message,
    termination_text,
};
use vrl::compiler::runtime::{Runtime, Terminate};
use vrl::compiler::{Program, TimeZone};
use vrl::value::{Secrets, Value};
use vstd::prelude::*;

verus! {

/// The runtime of one worker. It is made once and used for every program the
/// worker runs; between two runs it holds nothing, so that no run can see
/// what an earlier one left.
pub struct ExecutionContext {
    runtime: Runtime,
}

impl ExecutionContext {
    /// Whether the runtime holds no variable of any program.
    pub closed spec fn is_clear(&self) -> bool {
        runtime_is_clear(self.runtime)
    }

    /// A context that has run nothing yet.
    pub fn new() -> (context: ExecutionContext)
        ensures
            context.is_clear(),
    {
        ExecutionContext { runtime: fresh_runtime() }
    }

    /// Whether the runtime holds no variable of any program.
    pub fn is_idle(&self) -> (idle: bool)
        ensures
            idle == self.is_clear(),
    {
        self.runtime.is_empty()
    }

    /// Runs `program` against `document`, with `metadata` and `secrets` beside
    /// it and `zone` for what depends on a time zone. The three may be
    /// changed by the program. Gives the value of the program's last
    /// expression, or the message of the error that ended the run.
    ///
    /// The run itself is `run`, called once on this context's runtime and on
    /// what was given, as it was given. What it leaves in the document, the
    /// metadata and the secrets is what the caller finds there. Whatever the
    /// run did, the runtime is cleared before this returns.
    pub fn execute<R>(
        &mut self,
        program: &Program,
        document: &mut Value,
        metadata: &mut Value,
        secrets: &mut Secrets,
        zone: &TimeZone,
        run: R,
    ) -> (ran: Result<Value, String>) where
        R: FnOnce(
            &mut Runtime,
            &Program,
            &mut Value,
            &mut Value,
            &mut Secrets,
            &TimeZone,
        ) -> Result<Value, Terminate>,

        requires
            forall|runtime: &mut Runtime, d: &mut Value, m: &mut Value, s: &mut Secrets| #[trigger]
                run.requires((runtime, program, d, m, s, zone)),
        ensures
            final(self).is_clear(),
            exists|
                runtime: &mut Runtime,
                d: &mut Value,
                m: &mut Value,
                s: &mut Secrets,
                outcome: Result<Value, Terminate>,
            |
                {
                    &&& old(self).is_clear() ==> runtime_is_clear(*runtime)
                    &&& *d == *old(document) && *final(d) == *final(document)
                    &&& *m == *old(metadata) && *final(m) == *final(metadata)
                    &&& *s == *old(secrets) && *final(s) == *final(secrets)
                    &&& #[trigger] run.ensures((runtime, program, d, m, s, zone), outcome)
                    &&& run_view(ran) == reported(outcome)
                },
    {
        let outcome = run(&mut self.runtime, program, document, metadata, secrets, zone);
        self.runtime.clear();
        report(outcome)
    }
}

/// How a run ended, as contracts see it: the value it ended with, or the
/// message of the error that ended it, by its characters.
pub type RunView = Result<Value, Seq<char>>;

/// What is reported of a run that ended in `outcome`: the value as it is, an
/// error by the message that it holds.
pub open spec fn reported(outcome: Result<Value, Terminate>) -> RunView {
    match outcome {
        Ok(output) => Ok(output),
        Err(error) => Err(termination_text(error)),
    }
}

/// A reported run as contracts see it.
pub open spec fn run_view(ran: Result<Value, String>) -> RunView {
    match ran {
        Ok(output) => Ok(output),
        Err(message) => Err(message@),
    }
}

/// Reports how a run ended: the value as it is, an error as its message.
pub fn report(outcome: Result<Value, Terminate>) -> (ran: Result<Value, String>)
    ensures
        run_view(ran) == reported(outcome),
{
    match outcome {
        Ok(output) => Ok(output),
        Err(error) => Err(termination_message(&error)),
    }
}

/// The name of the time zone that executions are configured with. It is no
/// name that the language knows, so executions run in the local zone.
pub const CONFIGURED_ZONE: &'static str = "tt";

/// The machine's local zone: what the language makes of the name `local`.
pub open spec fn local_zone() -> TimeZone {
    parsed_time_zone("local"@)->Some_0
}

/// The zone that stands for `name`: the zone of that name, or the local zone
/// where the name is none that the language knows.
pub open spec fn zone_named(name: Seq<char>) -> TimeZone {
    match parsed_time_zone(name) {
        Some(zone) => zone,
        None => local_zone(),
    }
}

/// The zone to use once a name has been parsed: the parsed zone, or the
/// machine's local zone where parsing failed.
pub fn zone_or_local(parsed: Option<TimeZone>) -> (zone: TimeZone)
    ensures
        zone == match parsed {
            Some(named) => named,
            None => local_zone(),
        },
{
    match parsed {
        Some(named) => named,
        None => local_time_zone(),
    }
}

/// The zone that stands for `name`. A name that does not parse is no error:
/// the local zone takes its place.
pub fn time_zone_named(name: &str) -> (zone: TimeZone)
    ensures
        zone == zone_named(name@),
{
    zone_or_local(TimeZone::parse(name))
}

/// The zone that a program runs in.
///
/// The zone a request asks for is not applied: every program runs in the
/// configured zone, whatever `requested` holds. To let requests choose, parse
/// `requested` here in place of the configured name.
pub fn execution_time_zone(requested: &Option<String>) -> (zone: TimeZone)
    ensures
        zone == zone_named(CONFIGURED_ZONE@),
{
    let _ = requested;
    time_zone_named(CONFIGURED_ZONE)
}

} // verus!
