//! The values of the expression language, as this library sees them.
//!
//! The language lives in the `vrl` crate. Verus does not read that crate, so
//! every item here is trusted: a type that is carried through unopened, a
//! name for something the crate computes, or a wrapper round one of its
//! functions whose contract says no more than the crate's source shows.
//!
//! The compiler and the runtime of the language are not called from here.
//! Either can give up on a program by panicking, and which programs those
//! are no contract could say. So the library takes both as arguments: see
//! `resolve_with`.

use vrl::compiler::runtime::{Runtime, Terminate};
use vrl::compiler::{Program, TimeZone};
use vrl::value::{ObjectMap, Secrets, Value};
use vstd::prelude::*;

verus! {

/// `vrl::compiler::Program`: a compiled program. Carried through unopened.
#[verifier::external_type_specification]
#[verifier::external_body]
pub struct ExProgram(Program);

/// `vrl::value::Value`: a document, or any value inside one. Carried through
/// unopened.
#[verifier::external_type_specification]
#[verifier::external_body]
pub struct ExValue(Value);

/// `vrl::value::Secrets`: the secrets a program may read and write while it
/// runs. Carried through unopened.
#[verifier::external_type_specification]
#[verifier::external_body]
pub struct ExSecrets(Secrets);

/// `vrl::compiler::TimeZone`: the local zone or a zone of the tz database.
/// Carried through unopened.
#[verifier::external_type_specification]
#[verifier::external_body]
pub struct ExTimeZone(TimeZone);

/// `vrl::compiler::runtime::Runtime`: the variables of a running program.
/// Carried through unopened.
#[verifier::external_type_specification]
#[verifier::external_body]
pub struct ExRuntime(Runtime);

/// `vrl::compiler::runtime::Terminate`: why a run ended without a value.
/// Carried through unopened.
#[verifier::external_type_specification]
#[verifier::external_body]
pub struct ExTerminate(Terminate);

/// Whether `value` is an object without fields.
pub uninterp spec fn is_empty_object(value: Value) -> bool;

/// Whether `secrets` holds no secret.
pub uninterp spec fn holds_no_secret(secrets: Secrets) -> bool;

/// What `Runtime::is_empty` says of `runtime`: whether it holds no variable.
pub uninterp spec fn runtime_is_clear(runtime: Runtime) -> bool;

/// What `TimeZone::parse` makes of `name`: the zone of that name, or `None`
/// where the name is neither empty, `local`, nor a name of the tz database.
pub uninterp spec fn parsed_time_zone(name: Seq<char>) -> Option<TimeZone>;

/// What the `Display` of `error` writes: the message of the error that ended
/// a run. It depends on the error alone.
pub uninterp spec fn termination_text(error: Terminate) -> Seq<char>;

/// Renders `error` through its `Display`, which writes the message that the
/// error holds. What the message says is not claimed.
#[verifier::external_body]
pub(crate) fn termination_message(error: &Terminate) -> (message: String)
    ensures
        message@ == termination_text(*error),
{
    error.to_string()
}

/// Builds `Value::Object` over a map without entries.
#[verifier::external_body]
pub(crate) fn empty_object() -> (value: Value)
    ensures
        is_empty_object(value),
{
    Value::Object(ObjectMap::new())
}

/// Gives `TimeZone::Local`, which is what `TimeZone::parse` returns for the
/// name `local`.
#[verifier::external_body]
pub(crate) fn local_time_zone() -> (zone: TimeZone)
    ensures
        parsed_time_zone("local"@) == Some(zone),
{
    TimeZone::Local
}

/// Calls `Runtime::default`, which starts without variables.
#[verifier::external_body]
pub(crate) fn fresh_runtime() -> (runtime: Runtime)
    ensures
        runtime_is_clear(runtime),
{
    Runtime::default()
}

/// `Runtime::is_empty` tells whether the runtime holds no variable.
pub assume_specification[ Runtime::is_empty ](runtime: &Runtime) -> (empty: bool)
    ensures
        empty == runtime_is_clear(*runtime),
;

/// `Runtime::clear` drops every variable.
pub assume_specification[ Runtime::clear ](runtime: &mut Runtime)
    ensures
        runtime_is_clear(*final(runtime)),
;

/// `TimeZone::parse` depends on the name alone.
pub assume_specification[ TimeZone::parse ](s: &str) -> (zone: Option<TimeZone>)
    ensures
        zone == parsed_time_zone(s@),
;

/// `Secrets::new` starts without secrets.
pub assume_specification[ Secrets::new ]() -> (secrets: Secrets)
    ensures
        holds_no_secret(secrets),
;

} // verus!
