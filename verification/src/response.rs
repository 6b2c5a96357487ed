//! From the body of a response to the command that it proposes.

use vstd::prelude::*;
use vstd::string::*;
use crate::extract::{extract_text, extracted};
use crate::failure::{Failure, FailureModel};
use crate::json::{parse, parsed, Json, JsonModel};
use crate::sanitize::{sanitize_command, sanitized};

verus! {

/// The command that a response document proposes: its generated text,
/// sanitized.
pub open spec fn command_of(doc: JsonModel) -> Option<Seq<char>> {
    match extracted(doc) {
        Some(text) => Some(sanitized(text)),
        None => None,
    }
}

/// What a response body comes to, given what the parser made of it: the
/// command of the document; a decoding failure where the body is no
/// document; an extraction failure where the document holds no text. Both
/// failures carry the body.
pub open spec fn outcome_of(
    parsed: Result<JsonModel, Seq<char>>,
    body: Seq<char>,
) -> Result<Seq<char>, FailureModel> {
    match parsed {
        Err(cause) => Err(FailureModel::Decode { body, cause }),
        Ok(doc) => match command_of(doc) {
            Some(command) => Ok(command),
            None => Err(FailureModel::NoText { body }),
        },
    }
}

/// The command that `doc` proposes, if it holds a generated text.
pub fn command_from_document(doc: &Json) -> (command: Option<String>)
    ensures
        match command {
            Some(command) => command_of(doc@) == Some(command@),
            None => command_of(doc@) is None,
        },
{
    match extract_text(doc) {
        Some(text) => Some(sanitize_command(text.as_str())),
        None => None,
    }
}

/// What the body `body` comes to, `outcome` being what the parser made of
/// it.
pub fn command_from_parsed(outcome: Result<Json, String>, body: &str) -> (result: Result<
    String,
    Failure,
>)
    ensures
        match (outcome, result) {
            (Ok(doc), Ok(command)) => command_of(doc@) == Some(command@),
            (Ok(doc), Err(failure)) => command_of(doc@) is None && failure@ == (
            FailureModel::NoText { body: body@ }),
            (Err(cause), Ok(_)) => false,
            (Err(cause), Err(failure)) => failure@ == (FailureModel::Decode {
                body: body@,
                cause: cause@,
            }),
        },
{
    match outcome {
        Err(cause) => Err(Failure::Decode { body: body.to_owned(), cause }),
        Ok(doc) => match command_from_document(&doc) {
            Some(command) => Ok(command),
            None => Err(Failure::NoText { body: body.to_owned() }),
        },
    }
}

/// Decodes the response body `body` and returns the command that it
/// proposes.
pub fn command_from_body(body: &str) -> (result: Result<String, Failure>)
    ensures
        match result {
            Ok(command) => outcome_of(parsed(body@), body@) == Ok::<Seq<char>, FailureModel>(
                command@,
            ),
            Err(failure) => outcome_of(parsed(body@), body@) == Err::<Seq<char>, FailureModel>(
                failure@,
            ),
        },
{
    command_from_parsed(parse(body), body)
}

} // verus!
