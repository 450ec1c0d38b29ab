//! What goes into a resolution and what comes out of it.

use crate::engine::{empty_object, holds_no_secret, is_empty_object};
use vrl::value::{Secrets, Value};
use vstd::prelude::*;

verus! {

/// One request: a program, the document to run it against, and a time zone.
#[derive(Debug, PartialEq)]
pub struct Input {
    /// The program text. It is compiled as it stands, and it is the key
    /// under which the compilation is remembered.
    pub program: String,
    /// The document the program reads and changes. Absent means an object
    /// without fields.
    pub event: Option<Value>,
    /// The name of a time zone. It is accepted and, for now, not applied: see
    /// `execution_time_zone`.
    pub tz: Option<String>,
}

/// Why a request cannot be resolved at all. This is no outcome of a
/// resolution: a request that is turned away never reaches a program.
#[derive(Debug, PartialEq, Eq, Structural)]
pub enum RequestError {
    /// The request names no program.
    MissingProgram,
}

impl RequestError {
    /// What to tell whoever sent the request.
    pub fn message(&self) -> (text: String)
        ensures
            text@ == "missing field `program`"@,
    {
        match self {
            RequestError::MissingProgram => "missing field `program`".to_owned(),
        }
    }
}

impl Input {
    /// The request made of the fields that arrived. A program is required:
    /// without one the request is turned away, whatever else it holds. The
    /// document and the time zone may be absent.
    pub fn from_parts(program: Option<String>, event: Option<Value>, tz: Option<String>) -> (made:
        Result<Input, RequestError>)
        ensures
            made == match program {
                Some(text) => Ok::<Input, RequestError>(Input { program: text, event, tz }),
                None => Err::<Input, RequestError>(RequestError::MissingProgram),
            },
    {
        match program {
            Some(text) => Ok(Input { program: text, event, tz }),
            None => Err(RequestError::MissingProgram),
        }
    }
}

/// How a resolution ended.
#[derive(Debug, PartialEq)]
pub enum Outcome {
    /// The program ran to its end.
    Success {
        /// The value of the program's last expression.
        output: Value,
        /// The document as the program left it.
        result: Value,
    },
    /// The program did not compile, or failed while it ran. The message says
    /// which and why.
    Error(String),
}

/// The document a program starts from: the one that was given, or an object
/// without fields where none was.
pub fn document_or_empty(event: Option<Value>) -> (document: Value)
    ensures
        match event {
            Some(given) => document == given,
            None => is_empty_object(document),
        },
{
    match event {
        Some(given) => given,
        None => empty_object(),
    }
}

/// What a program gets beside the document: metadata and secrets, made anew
/// for every run and empty when it starts. What a program writes there ends
/// with the run.
pub fn fresh_side_channels() -> (channels: (Value, Secrets))
    ensures
        is_empty_object(channels.0),
        holds_no_secret(channels.1),
{
    (empty_object(), Secrets::new())
}

impl Outcome {
    /// The outcome of a program that did not compile: the compiler's message.
    pub fn from_compile_error(message: String) -> (outcome: Outcome)
        ensures
            outcome == Outcome::Error(message),
    {
        Outcome::Error(message)
    }

    /// The outcome of a program that ran against `document`: the value it
    /// ended with beside the document as it now is, or the message of the
    /// failure. A failed run does not hand the document back.
    pub fn from_run(run: Result<Value, String>, document: Value) -> (outcome: Outcome)
        ensures
            outcome == match run {
                Ok(output) => (Outcome::Success { output, result: document }),
                Err(message) => Outcome::Error(message),
            },
    {
        match run {
            Ok(output) => Outcome::Success { output, result: document },
            Err(message) => Outcome::Error(message),
        }
    }
}

} // verus!
