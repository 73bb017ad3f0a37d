//! What can go wrong.

use vstd::prelude::*;

use crate::json::{Json, JsonView};
use crate::print::json_text;

verus! {

/// A refused request or a reply that cannot be used.
#[derive(Debug, PartialEq, Eq)]
pub enum Error {
    /// The caller's input is refused; nothing is sent.
    InvalidInput(String),
    /// The service's answer is an error, or lacks what is needed.
    Api {
        status: u16,
        body: String,
        correlation_id: Option<String>,
    },
}

/// The model of an error.
pub ghost enum ErrorView {
    InvalidInput(Seq<char>),
    Api {
        status: u16,
        body: Seq<char>,
        correlation_id: Option<Seq<char>>,
    },
}

impl View for Error {
    type V = ErrorView;

    open spec fn view(&self) -> ErrorView {
        match self {
            Error::InvalidInput(message) => ErrorView::InvalidInput(message@),
            Error::Api { status, body, correlation_id } => ErrorView::Api {
                status: *status,
                body: body@,
                correlation_id: match correlation_id {
                    Some(id) => Some(id@),
                    None => None,
                },
            },
        }
    }
}

impl ErrorView {
    /// An error of the service that a message says all about.
    pub open spec fn api(status: u16, body: Seq<char>) -> ErrorView {
        ErrorView::Api { status, body, correlation_id: None }
    }

    /// An error of the service about a JSON value, whose text ends the message.
    pub open spec fn api_about(status: u16, message: Seq<char>, json: JsonView) -> ErrorView {
        ErrorView::api(status, message + json_text(json))
    }
}

/// The model of a result.
pub open spec fn outcome<T: View>(result: Result<T, Error>) -> Result<T::V, ErrorView> {
    match result {
        Ok(value) => Ok(value@),
        Err(error) => Err(error@),
    }
}

impl Error {
    /// Refuses an input.
    pub fn invalid(message: String) -> (error: Error)
        ensures
            error@ == ErrorView::InvalidInput(message@),
    {
        Error::InvalidInput(message)
    }

    /// An error of the service that a message says all about.
    pub fn api(status: u16, body: String) -> (error: Error)
        ensures
            error@ == ErrorView::api(status, body@),
    {
        Error::Api { status, body, correlation_id: None }
    }

    /// An error of the service about a JSON value, whose text ends the message.
    pub fn api_about(status: u16, message: &str, json: &Json) -> (error: Error)
        ensures
            error@ == ErrorView::api_about(status, message@, json@),
    {
        Error::api(status, message.to_owned().concat(json.to_text().as_str()))
    }

    /// The message of the error.
    pub fn message(&self) -> (message: String)
        ensures
            message@ == match self@ {
                ErrorView::InvalidInput(message) => message,
                ErrorView::Api { body, .. } => body,
            },
    {
        match self {
            Error::InvalidInput(message) => message.clone(),
            Error::Api { body, .. } => body.clone(),
        }
    }
}

}
