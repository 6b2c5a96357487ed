//! The ways in which a run fails.

use vstd::prelude::*;
use vstd::string::*;

verus! {

/// Why a run ended without a command having run to success.
#[derive(Debug, PartialEq, Eq)]
pub enum Failure {
    /// No task was described.
    Usage,
    /// The response body is not a JSON document; `cause` is the parser's
    /// description of what is wrong with it.
    Decode { body: String, cause: String },
    /// The response holds no generated text in any known shape.
    NoText { body: String },
    /// The command ran and did not succeed: `code` is its exit code, if it
    /// left one, and `status` says how it ended.
    Execution { code: Option<i32>, status: String },
}

/// What stands for a [`Failure`] in contracts.
pub enum FailureModel {
    Usage,
    Decode { body: Seq<char>, cause: Seq<char> },
    NoText { body: Seq<char> },
    Execution { code: Option<i32>, status: Seq<char> },
}

impl View for Failure {
    type V = FailureModel;

    open spec fn view(&self) -> FailureModel {
        match self {
            Failure::Usage => FailureModel::Usage,
            Failure::Decode { body, cause } => FailureModel::Decode { body: body@, cause: cause@ },
            Failure::NoText { body } => FailureModel::NoText { body: body@ },
            Failure::Execution { code, status } => FailureModel::Execution {
                code: *code,
                status: status@,
            },
        }
    }
}

/// What is shown where no task was described.
pub const USAGE_MESSAGE: &'static str =
    "Please provide a description, e.g. `llmwrap convert video.mp4 to gif`";

/// What stands before the body that could not be decoded.
pub const DECODE_MESSAGE: &'static str = "Failed to decode responses body: ";

/// What stands before the body that held no text.
pub const NO_TEXT_MESSAGE: &'static str = "No text output returned from model. Full body: ";

/// What stands before the description of how the command ended.
pub const EXECUTION_MESSAGE: &'static str = "Command exited with status: ";

impl FailureModel {
    /// The message shown for the failure. Where a response body was at
    /// fault, the message ends with the body as it was received.
    pub open spec fn message(self) -> Seq<char> {
        match self {
            FailureModel::Usage => USAGE_MESSAGE@,
            FailureModel::Decode { body, .. } => DECODE_MESSAGE@ + body,
            FailureModel::NoText { body } => NO_TEXT_MESSAGE@ + body,
            FailureModel::Execution { status, .. } => EXECUTION_MESSAGE@ + status,
        }
    }
}

impl Failure {
    /// The message shown for the failure.
    pub fn message(&self) -> (shown: String)
        ensures
            shown@ == self@.message(),
    {
        match self {
            Failure::Usage => USAGE_MESSAGE.to_owned(),
            Failure::Decode { body, .. } => DECODE_MESSAGE.to_owned().concat(body.as_str()),
            Failure::NoText { body } => NO_TEXT_MESSAGE.to_owned().concat(body.as_str()),
            Failure::Execution { status, .. } => EXECUTION_MESSAGE.to_owned().concat(
                status.as_str(),
            ),
        }
    }
}

/// Judges how a command ended: it succeeded if it left the exit code
/// zero, and failed otherwise, whether it left another code or none.
/// `status` is the description of the ending that a failure carries.
pub fn check_exit(code: Option<i32>, status: &str) -> (result: Result<(), Failure>)
    ensures
        result is Ok <==> code == Some(0i32),
        result matches Err(failure) ==> failure@ == (FailureModel::Execution {
            code,
            status: status@,
        }),
{
    match code {
        Some(0) => Ok(()),
        _ => Err(Failure::Execution { code, status: status.to_owned() }),
    }
}

} // verus!
