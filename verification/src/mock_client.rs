//! The replies of a client that stands in for a cluster.
use crate::error::OperatorError;
use crate::outside::{
    error_response_to_json, json_of_error_response, status_code_of, status_code_text,
};
use vstd::prelude::*;

verus! {

/// The message and the reason that a status code comes with.
pub open spec fn words_for(code: u16) -> (Seq<char>, Seq<char>) {
    if code == 409 {
        ("resource already exists"@, "AlreadyExists"@)
    } else if code == 500 {
        ("internal server error"@, "ServerTimeout"@)
    } else if code == 404 {
        ("resource not found"@, "NotFound"@)
    } else if code == 400 {
        ("bad request"@, "BadRequest"@)
    } else {
        ("error with status code "@ + status_code_of(code), "Unknown"@)
    }
}

/// An error as the API server words it.
pub struct ErrorResponse {
    pub status: String,
    pub message: String,
    pub reason: String,
    pub code: u16,
}

/// Words the error of a status code.
pub fn error_response(code: u16) -> (response: ErrorResponse)
    requires
        100 <= code <= 999,
    ensures
        response.status@ == "Failure"@,
        (response.message@, response.reason@) == words_for(code),
        response.code == code,
{
    let (message, reason) = match code {
        409 => ("resource already exists".to_owned(), "AlreadyExists"),
        500 => ("internal server error".to_owned(), "ServerTimeout"),
        404 => ("resource not found".to_owned(), "NotFound"),
        400 => ("bad request".to_owned(), "BadRequest"),
        _ => (
            "error with status code ".to_owned().concat(status_code_text(code).as_str()),
            "Unknown",
        ),
    };
    ErrorResponse { status: "Failure".to_owned(), message, reason: reason.to_owned(), code }
}

/// The status code and the body of the reply, given what the mocked cluster answers: data, or the
/// status code of an error.
pub fn mock_reply(response: Result<String, u16>) -> (reply: Result<(u16, String), OperatorError>)
    requires
        response matches Err(code) ==> 100 <= code <= 999,
    ensures
        reply is Ok,
        reply matches Ok(r) ==> match response {
            Ok(data) => r.0 == 200 && r.1@ == data@,
            Err(code) => r.0 == code && r.1@ == json_of_error_response(
                "Failure"@,
                words_for(code).0,
                words_for(code).1,
                code,
            ),
        },
{
    match response {
        Ok(data) => Ok((200, data)),
        Err(code) => {
            let error = error_response(code);
            match error_response_to_json(
                error.status.as_str(),
                error.message.as_str(),
                error.reason.as_str(),
                error.code,
            ) {
                Ok(json) => Ok((code, json)),
                Err(e) => Err(OperatorError::Json(e)),
            }
        },
    }
}

} // verus!
