//! The errors of the collector and of its buffer.

use vstd::prelude::*;
use vstd::string::*;

verus! {

/// What can go wrong in the collector.
#[derive(Debug, Clone, PartialEq, Eq)]
pub enum CollectorError {
    /// A file could not be read.
    Io {
        /// What the system said.
        source: String,
        /// The file.
        path: String,
    },
    /// A file is not the TOML that was expected.
    TomlParse {
        /// What the parser said.
        source: String,
        /// The file.
        path: String,
    },
    /// The database failed.
    Sqlite(String),
    /// JSON could not be written or read.
    SerdeJson(String),
    /// An outside command failed.
    Command {
        /// A description for people.
        message: String,
        /// What the system said.
        source: String,
    },
    /// An HTTP request failed.
    Http {
        /// A description for people.
        message: String,
        /// What the transport said.
        source: String,
    },
    /// A reporter failed.
    Reporter {
        /// The reason, for people.
        reason: String,
    },
}

/// A result of the collector.
pub type CollectorResult<T> = Result<T, CollectorError>;

/// The text that shows an error to people.
pub open spec fn error_text(e: CollectorError) -> Seq<char> {
    match e {
        CollectorError::Io { source, path } => "failed to read file: "@ + path@,
        CollectorError::TomlParse { source, path } => "failed to parse TOML: "@ + path@,
        CollectorError::Sqlite(message) => "sqlite error: "@ + message@,
        CollectorError::SerdeJson(message) => "json error: "@ + message@,
        CollectorError::Command { message, source } => "command error: "@ + message@,
        CollectorError::Http { message, source } => "http error: "@ + message@,
        CollectorError::Reporter { reason } => "reporter error: "@ + reason@,
    }
}

impl CollectorError {
    /// The text that shows the error to people.
    pub fn to_string(&self) -> (res: String)
        ensures
            res@ == error_text(*self),
    {
        match self {
            CollectorError::Io { source: _, path } => labelled("failed to read file: ", path),
            CollectorError::TomlParse { source: _, path } => labelled(
                "failed to parse TOML: ",
                path,
            ),
            CollectorError::Sqlite(message) => labelled("sqlite error: ", message),
            CollectorError::SerdeJson(message) => labelled("json error: ", message),
            CollectorError::Command { message, source: _ } => labelled("command error: ", message),
            CollectorError::Http { message, source: _ } => labelled("http error: ", message),
            CollectorError::Reporter { reason } => labelled("reporter error: ", reason),
        }
    }
}

/// `label` with `rest` behind it.
pub(crate) fn labelled(label: &str, rest: &str) -> (res: String)
    ensures
        res@ == label@ + rest@,
{
    let mut out = String::from_str(label);
    out.append(rest);
    out
}

/// Whether `e` is a reporter's error with the given reason.
pub open spec fn is_reporter_error(e: CollectorError, reason: Seq<char>) -> bool {
    e matches CollectorError::Reporter { reason: r } && r@ == reason
}

/// What can go wrong in the exception buffer.
#[derive(Debug, Clone, PartialEq, Eq)]
pub enum BufferError {
    /// The database failed.
    Sqlite(String),
    /// JSON could not be written or read.
    SerdeJson(String),
    /// A lock was left behind by a holder that panicked, or there is no
    /// directory for the database.
    Poisoned(String),
}

/// A result of the buffer.
pub type BufferResult<T> = Result<T, BufferError>;

/// What a [`BufferError`] holds.
pub enum BufferErrorView {
    /// See [`BufferError::Sqlite`].
    Sqlite(Seq<char>),
    /// See [`BufferError::SerdeJson`].
    SerdeJson(Seq<char>),
    /// See [`BufferError::Poisoned`].
    Poisoned(Seq<char>),
}

impl View for BufferError {
    type V = BufferErrorView;

    open spec fn view(&self) -> BufferErrorView {
        match self {
            BufferError::Sqlite(message) => BufferErrorView::Sqlite(message@),
            BufferError::SerdeJson(message) => BufferErrorView::SerdeJson(message@),
            BufferError::Poisoned(message) => BufferErrorView::Poisoned(message@),
        }
    }
}

/// The text that shows a buffer error to people.
pub open spec fn buffer_error_text(e: BufferError) -> Seq<char> {
    match e {
        BufferError::Sqlite(message) => "sqlite buffer error: "@ + message@,
        BufferError::SerdeJson(message) => "json buffer error: "@ + message@,
        BufferError::Poisoned(message) => "internal mutex poisoned: "@ + message@,
    }
}

impl BufferError {
    /// The text that shows the error to people.
    pub fn to_string(&self) -> (res: String)
        ensures
            res@ == buffer_error_text(*self),
    {
        match self {
            BufferError::Sqlite(message) => labelled("sqlite buffer error: ", message),
            BufferError::SerdeJson(message) => labelled("json buffer error: ", message),
            BufferError::Poisoned(message) => labelled("internal mutex poisoned: ", message),
        }
    }
}

/// An error that a reporter gives for a reason tells that reason and no other.
pub proof fn law_a_reporter_error_has_one_reason(e: CollectorError, a: Seq<char>, b: Seq<char>)
    requires
        is_reporter_error(e, a),
    ensures
        e is Reporter,
        e->Reporter_reason@ == a,
        is_reporter_error(e, b) ==> a == b,
        error_text(e) == "reporter error: "@ + a,
{
}

/// The text of an error is a label of its kind with the whole of what the error
/// says behind it: two errors of a kind differ in that alone.
pub proof fn law_error_texts_tell_all_that_is_said(a: String, b: String, source: String)
    ensures
        same_label(
            error_text(CollectorError::Io { source, path: a }),
            a@,
            error_text(CollectorError::Io { source, path: b }),
            b@,
        ),
        same_label(
            error_text(CollectorError::TomlParse { source, path: a }),
            a@,
            error_text(CollectorError::TomlParse { source, path: b }),
            b@,
        ),
        same_label(
            error_text(CollectorError::Sqlite(a)),
            a@,
            error_text(CollectorError::Sqlite(b)),
            b@,
        ),
        same_label(
            error_text(CollectorError::SerdeJson(a)),
            a@,
            error_text(CollectorError::SerdeJson(b)),
            b@,
        ),
        same_label(
            error_text(CollectorError::Command { message: a, source }),
            a@,
            error_text(CollectorError::Command { message: b, source }),
            b@,
        ),
        same_label(
            error_text(CollectorError::Http { message: a, source }),
            a@,
            error_text(CollectorError::Http { message: b, source }),
            b@,
        ),
        same_label(
            error_text(CollectorError::Reporter { reason: a }),
            a@,
            error_text(CollectorError::Reporter { reason: b }),
            b@,
        ),
{
}

/// The same of the errors of the buffer.
pub proof fn law_buffer_error_texts_tell_all_that_is_said(a: String, b: String)
    ensures
        same_label(
            buffer_error_text(BufferError::Sqlite(a)),
            a@,
            buffer_error_text(BufferError::Sqlite(b)),
            b@,
        ),
        same_label(
            buffer_error_text(BufferError::SerdeJson(a)),
            a@,
            buffer_error_text(BufferError::SerdeJson(b)),
            b@,
        ),
        same_label(
            buffer_error_text(BufferError::Poisoned(a)),
            a@,
            buffer_error_text(BufferError::Poisoned(b)),
            b@,
        ),
{
}

/// Whether one label, with `a` and with `b` behind it, makes the two texts.
pub open spec fn same_label(one: Seq<char>, a: Seq<char>, other: Seq<char>, b: Seq<char>) -> bool {
    exists|label: Seq<char>| one == #[trigger] (label + a) && other == label + b
}

/// Buffer errors of the same view are of the same kind and say the same.
pub proof fn law_views_of_buffer_errors_tell_everything(a: BufferError, b: BufferError)
    requires
        a@ == b@,
    ensures
        a matches BufferError::Sqlite(message) ==> b is Sqlite && b->Sqlite_0@ == message@,
        a matches BufferError::SerdeJson(message) ==> b is SerdeJson && b->SerdeJson_0@ == message@,
        a matches BufferError::Poisoned(message) ==> b is Poisoned && b->Poisoned_0@ == message@,
{
}

} // verus!
