//! What passes between the application and the server that writes jobs to
//! the device: how each reads the other's answer.

use vstd::prelude::*;
use vstd::string::*;
use crate::hpgl::EmitPreconditionFailed;
use crate::job::SendToDeviceError;

verus! {

/// The status with which the server accepts a job.
pub const STATUS_OK: u16 = 200;

/// The status with which the server refuses a job that it cannot read or cut.
pub const STATUS_BAD_REQUEST: u16 = 400;

/// The status with which the server reports that it could not write to the device.
pub const STATUS_INTERNAL_SERVER_ERROR: u16 = 500;

/// Errors that can occur when communicating with the server.
#[derive(Debug, Clone, PartialEq, Eq)]
pub enum PlanchetteError {
    /// The URL to send the request to could not be made.
    FailedToCreateRequest(String),
    /// Sending the request to the server failed.
    FailedToSendRequest(String),
    /// The server found the request bad.
    BadRequest(String),
    /// The server failed.
    ServerError(String),
}

/// What the answer of the server to a job means: a bad request and a server
/// error are errors that carry the body of the answer, or `Unknown Error`
/// where the body could not be read; every other status is success.
pub fn read_response(status: u16, body: Option<String>) -> (outcome: Result<(), PlanchetteError>)
    ensures
        match outcome {
            Ok(_) => status != STATUS_BAD_REQUEST && status != STATUS_INTERNAL_SERVER_ERROR,
            Err(PlanchetteError::BadRequest(text)) => status == STATUS_BAD_REQUEST && text@
                == response_text(body),
            Err(PlanchetteError::ServerError(text)) => status == STATUS_INTERNAL_SERVER_ERROR
                && text@ == response_text(body),
            Err(_) => false,
        },
{
    if status == STATUS_BAD_REQUEST {
        Err(PlanchetteError::BadRequest(body_or_unknown(body)))
    } else if status == STATUS_INTERNAL_SERVER_ERROR {
        Err(PlanchetteError::ServerError(body_or_unknown(body)))
    } else {
        Ok(())
    }
}

/// The body of an answer, or `Unknown Error` where there is none.
pub open spec fn response_text(body: Option<String>) -> Seq<char> {
    match body {
        Some(text) => text@,
        None => "Unknown Error"@,
    }
}

fn body_or_unknown(body: Option<String>) -> (text: String)
    ensures
        text@ == response_text(body),
{
    match body {
        Some(text) => text,
        None => String::from_str("Unknown Error"),
    }
}

/// What is shown to the user for an error: a headline, and the details.
pub fn describe_error(error: PlanchetteError) -> (shown: (&'static str, String))
    ensures
        shown.0@ == match error {
            PlanchetteError::FailedToCreateRequest(_) => {
                "Failed to construct request to laser cutter server"@
            },
            PlanchetteError::FailedToSendRequest(_) => {
                "Failed to send request to laser cutter server"@
            },
            PlanchetteError::BadRequest(_) => "Server rejected the design file"@,
            PlanchetteError::ServerError(_) => "Server encountered an error"@,
        },
        shown.1@ == match error {
            PlanchetteError::FailedToCreateRequest(details) => details@,
            PlanchetteError::FailedToSendRequest(details) => details@,
            PlanchetteError::BadRequest(details) => details@,
            PlanchetteError::ServerError(details) => details@,
        },
{
    match error {
        PlanchetteError::FailedToCreateRequest(details) => (
            "Failed to construct request to laser cutter server",
            details,
        ),
        PlanchetteError::FailedToSendRequest(details) => (
            "Failed to send request to laser cutter server",
            details,
        ),
        PlanchetteError::BadRequest(details) => ("Server rejected the design file", details),
        PlanchetteError::ServerError(details) => ("Server encountered an error", details),
    }
}

/// The text with which the server answers an error.
pub open spec fn answer_text(error: SendToDeviceError) -> Seq<char> {
    match error {
        SendToDeviceError::ErrorParsingSvg(details) => "Error parsing design: "@ + details@,
        SendToDeviceError::FailedToWriteToPrinter(details) => details@,
        SendToDeviceError::GenerateHpglError(EmitPreconditionFailed::NotSixteenPasses) => {
            "Exactly 16 tool passes are required"@
        },
        SendToDeviceError::GenerateHpglError(EmitPreconditionFailed::NoPassEnabled) => {
            "No tool passes enabled"@
        },
    }
}

/// The answer of the server to a job: success, or the status and text of
/// what went wrong. What the sender got wrong is a bad request; what the
/// device refused is a server error.
pub fn answer_job(outcome: Result<(), SendToDeviceError>) -> (answer: (u16, String))
    ensures
        answer.0 == match outcome {
            Ok(_) => STATUS_OK,
            Err(SendToDeviceError::FailedToWriteToPrinter(_)) => STATUS_INTERNAL_SERVER_ERROR,
            Err(_) => STATUS_BAD_REQUEST,
        },
        answer.1@ == match outcome {
            Ok(_) => Seq::<char>::empty(),
            Err(error) => answer_text(error),
        },
{
    match outcome {
        Ok(_) => (STATUS_OK, String::new()),
        Err(SendToDeviceError::ErrorParsingSvg(details)) => {
            let mut text = String::from_str("Error parsing design: ");
            text.append(details.as_str());
            (STATUS_BAD_REQUEST, text)
        },
        Err(SendToDeviceError::FailedToWriteToPrinter(details)) => (
            STATUS_INTERNAL_SERVER_ERROR,
            details,
        ),
        Err(SendToDeviceError::GenerateHpglError(reason)) => (
            STATUS_BAD_REQUEST,
            reason.message(),
        ),
    }
}

} // verus!
