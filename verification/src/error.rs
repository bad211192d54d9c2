//! The error type shared by every stage of the pipeline.

use vstd::prelude::*;

verus! {

/// `std::io::Error`, carried through opaque: the file layer in front of the
/// library produces it.
#[verifier::external_type_specification]
#[verifier::external_body]
pub struct ExIoError(std::io::Error);

/// `serde_json::Error`, carried through opaque.
#[verifier::external_type_specification]
#[verifier::external_body]
pub struct ExJsonError(serde_json::Error);

/// `ureq::Error`, carried through opaque: the HTTP layer in front of the
/// library produces it.
#[verifier::external_type_specification]
#[verifier::external_body]
pub struct ExHttpError(ureq::Error);

/// What can go wrong while reading, validating and shipping events.
#[derive(Debug)]
pub enum AppError {
    /// Reading the input failed.
    Io(std::io::Error),
    /// A line was not the JSON that was expected, or a value could not be encoded.
    Json(serde_json::Error),
    /// An event broke a rule of the domain; the text says which.
    Validation(String),
    /// Talking to ClickHouse failed.
    Http(ureq::Error),
}

impl From<std::io::Error> for AppError {
    fn from(e: std::io::Error) -> (r: AppError) {
        AppError::Io(e)
    }
}

impl vstd::std_specs::convert::FromSpecImpl<std::io::Error> for AppError {
    open spec fn obeys_from_spec() -> bool {
        true
    }

    open spec fn from_spec(e: std::io::Error) -> AppError {
        AppError::Io(e)
    }
}

impl From<serde_json::Error> for AppError {
    fn from(e: serde_json::Error) -> (r: AppError) {
        AppError::Json(e)
    }
}

impl vstd::std_specs::convert::FromSpecImpl<serde_json::Error> for AppError {
    open spec fn obeys_from_spec() -> bool {
        true
    }

    open spec fn from_spec(e: serde_json::Error) -> AppError {
        AppError::Json(e)
    }
}

impl From<ureq::Error> for AppError {
    fn from(e: ureq::Error) -> (r: AppError) {
        AppError::Http(e)
    }
}

impl vstd::std_specs::convert::FromSpecImpl<ureq::Error> for AppError {
    open spec fn obeys_from_spec() -> bool {
        true
    }

    open spec fn from_spec(e: ureq::Error) -> AppError {
        AppError::Http(e)
    }
}

/// The text `Display` gives a `std::io::Error`. Nothing is claimed of it:
/// it depends on the operating system's message for the error.
#[verifier::external_body]
fn io_error_text(e: &std::io::Error) -> String {
    format!("{e}")
}

/// The text `Display` gives a `serde_json::Error`. Nothing is claimed of it.
#[verifier::external_body]
fn json_error_text(e: &serde_json::Error) -> String {
    format!("{e}")
}

/// The text `Display` gives a `ureq::Error`. Nothing is claimed of it.
#[verifier::external_body]
fn http_error_text(e: &ureq::Error) -> String {
    format!("{e}")
}

/// The label that starts the message of each kind of error.
pub open spec fn error_prefix(e: AppError) -> Seq<char> {
    match e {
        AppError::Io(_) => "io error: "@,
        AppError::Json(_) => "json parse error: "@,
        AppError::Validation(_) => "validation error: "@,
        AppError::Http(_) => "http error: "@,
    }
}

impl AppError {
    /// The human-readable message of the error: its label, then what went wrong.
    pub fn message(&self) -> (m: String)
        ensures
            m@.len() >= error_prefix(*self).len(),
            m@.subrange(0, error_prefix(*self).len() as int) == error_prefix(*self),
            self matches AppError::Validation(text) ==> m@ == error_prefix(*self) + text@,
    {
        let (mut m, detail) = match self {
            AppError::Io(e) => (String::from_str("io error: "), io_error_text(e)),
            AppError::Json(e) => (String::from_str("json parse error: "), json_error_text(e)),
            AppError::Validation(text) => (String::from_str("validation error: "), text.clone()),
            AppError::Http(e) => (String::from_str("http error: "), http_error_text(e)),
        };
        let ghost head = m@;
        m.append(detail.as_str());
        assert(m@.subrange(0, head.len() as int) =~= head);
        m
    }
}

} // verus!
