//! The errors that the application reports.

use vstd::prelude::*;
use vstd::string::*;

verus! {

/// What an error is about.
#[derive(Debug, Clone, Copy, PartialEq, Eq, Structural)]
pub enum ErrorKind {
    /// A file or a directory could not be read or written.
    Io,
    /// A document was not the JSON that it should have been.
    Json,
    /// The caller handed in something unusable.
    Invalid,
    /// The agent could not be run to a good end.
    Codex,
    /// The agent's own window could not be opened.
    Open,
}

/// An error with the detail that belongs to it.
#[derive(Debug)]
pub enum AppError {
    Io(String),
    Json(String),
    Invalid(String),
    Codex(String),
    Open(String),
}

/// An error as its kind and its detail.
pub type ErrorView = (ErrorKind, Seq<char>);

impl View for AppError {
    type V = ErrorView;

    open spec fn view(&self) -> ErrorView {
        match self {
            AppError::Io(detail) => (ErrorKind::Io, detail@),
            AppError::Json(detail) => (ErrorKind::Json, detail@),
            AppError::Invalid(detail) => (ErrorKind::Invalid, detail@),
            AppError::Codex(detail) => (ErrorKind::Codex, detail@),
            AppError::Open(detail) => (ErrorKind::Open, detail@),
        }
    }
}

/// The words that a message of this kind begins with.
pub open spec fn error_label(kind: ErrorKind) -> Seq<char> {
    match kind {
        ErrorKind::Io => "filesystem error: "@,
        ErrorKind::Json => "json error: "@,
        ErrorKind::Invalid => "invalid input: "@,
        ErrorKind::Codex => "codex error: "@,
        ErrorKind::Open => "open error: "@,
    }
}

/// The message that a user reads.
pub open spec fn error_message(error: ErrorView) -> Seq<char> {
    error_label(error.0) + error.1
}

/// A text result as the text or the error's view.
pub open spec fn text_result(r: Result<String, AppError>) -> Result<Seq<char>, ErrorView> {
    match r {
        Ok(value) => Ok(value@),
        Err(error) => Err(error@),
    }
}

impl AppError {
    /// The message that a user reads.
    pub fn message(&self) -> (r: String)
        ensures
            r@ == error_message(self@),
            r@ == match self {
                AppError::Io(detail) => "filesystem error: "@ + detail@,
                AppError::Json(detail) => "json error: "@ + detail@,
                AppError::Invalid(detail) => "invalid input: "@ + detail@,
                AppError::Codex(detail) => "codex error: "@ + detail@,
                AppError::Open(detail) => "open error: "@ + detail@,
            },
    {
        match self {
            AppError::Io(detail) => "filesystem error: ".to_string().concat(detail.as_str()),
            AppError::Json(detail) => "json error: ".to_string().concat(detail.as_str()),
            AppError::Invalid(detail) => "invalid input: ".to_string().concat(detail.as_str()),
            AppError::Codex(detail) => "codex error: ".to_string().concat(detail.as_str()),
            AppError::Open(detail) => "open error: ".to_string().concat(detail.as_str()),
        }
    }
}

/// A message tells the kinds apart and keeps the detail: two errors with the same message are
/// the same error.
pub proof fn law_messages_identify_errors(a: ErrorView, b: ErrorView)
    requires
        error_message(a) == error_message(b),
    ensures
        a == b,
{
    reveal_strlit("filesystem error: ");
    reveal_strlit("json error: ");
    reveal_strlit("invalid input: ");
    reveal_strlit("codex error: ");
    reveal_strlit("open error: ");
    assert(error_message(a)[0] == error_label(a.0)[0]);
    assert(error_message(b)[0] == error_label(b.0)[0]);
    assert(a.0 == b.0);
    let label = error_label(a.0);
    assert(error_message(a).skip(label.len() as int) == a.1);
    assert(error_message(b).skip(label.len() as int) == b.1);
}

/// A message is the words for the kind of error and then the whole detail.
pub proof fn law_message_keeps_the_detail(detail: Seq<char>)
    ensures
        error_message((ErrorKind::Io, detail)) == "filesystem error: "@ + detail,
        error_message((ErrorKind::Json, detail)) == "json error: "@ + detail,
        error_message((ErrorKind::Invalid, detail)) == "invalid input: "@ + detail,
        error_message((ErrorKind::Codex, detail)) == "codex error: "@ + detail,
        error_message((ErrorKind::Open, detail)) == "open error: "@ + detail,
{
}

/// An error is seen by its kind and its whole detail.
pub proof fn law_errors_are_seen_whole(detail: String)
    ensures
        AppError::Io(detail)@ == (ErrorKind::Io, detail@),
        AppError::Json(detail)@ == (ErrorKind::Json, detail@),
        AppError::Invalid(detail)@ == (ErrorKind::Invalid, detail@),
        AppError::Codex(detail)@ == (ErrorKind::Codex, detail@),
        AppError::Open(detail)@ == (ErrorKind::Open, detail@),
        text_result(Ok(detail)) == Ok::<Seq<char>, ErrorView>(detail@),
        text_result(Err(AppError::Invalid(detail))) == Err::<Seq<char>, ErrorView>(
            (ErrorKind::Invalid, detail@),
        ),
{
}

} // verus!
