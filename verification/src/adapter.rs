//! What a source of content reports: its metadata and its errors.
use crate::text::prefixed;
use vstd::prelude::*;
use vstd::string::*;

verus! {

/// What a source says of its content.
#[derive(Debug)]
pub struct BoltLoadAdapterMeta {
    /// The content size.
    pub content_size: u64,
    /// Suggested filename.
    pub filename: Option<String>,
}

impl Clone for BoltLoadAdapterMeta {
    fn clone(&self) -> (meta: Self)
        ensures
            meta == *self,
    {
        BoltLoadAdapterMeta {
            content_size: self.content_size,
            filename: match &self.filename {
                Some(name) => Some(name.clone()),
                None => None,
            },
        }
    }
}

/// The kind of an input/output error, as far as it is told apart.
#[derive(Clone, Copy, Debug, PartialEq, Eq, Structural)]
pub enum IoErrorKind {
    /// The resource does not exist.
    NotFound,
    /// The access was denied.
    PermissionDenied,
    /// Anything else.
    Other,
}

/// An input/output error by its kind and message.
#[derive(Debug)]
pub struct IoError {
    /// The kind.
    pub kind: IoErrorKind,
    /// The message.
    pub message: String,
}

/// An error after which the operation may be tried again.
#[derive(Debug)]
pub enum RetryableError {
    /// An input/output error.
    Io { source: IoError },
}

/// An error that stays when the operation is tried again.
#[derive(Debug)]
pub enum UnretryableError {
    /// Access denied.
    Unauthorized { message: String },
    /// Resource not found.
    NotFound,
    /// Service unavailable.
    ServiceUnavailable { status: String, description: String },
    /// The error is internal, such as a range that was asked for before the
    /// metadata.
    Internal { message: String },
    /// Task cancelled.
    Cancelled,
    /// An input/output error.
    Io { source: IoError },
    /// Range stream is not supported.
    RangeStreamNotSupported,
    /// Anything else, by its message and the message of its cause.
    Whatever { message: String, source: Option<String> },
}

/// The error type for the adapter stream.
#[derive(Debug)]
pub enum AdapterError {
    /// The error is retryable.
    Retryable { source: RetryableError },
    /// The error is unretryable.
    Unretryable { source: UnretryableError },
}

impl Clone for IoError {
    fn clone(&self) -> (error: Self)
        ensures
            error == *self,
    {
        IoError { kind: self.kind, message: self.message.clone() }
    }
}

impl Clone for RetryableError {
    fn clone(&self) -> (error: Self)
        ensures
            error == *self,
    {
        match self {
            RetryableError::Io { source } => RetryableError::Io { source: source.clone() },
        }
    }
}

impl Clone for UnretryableError {
    fn clone(&self) -> (error: Self)
        ensures
            error == *self,
    {
        match self {
            UnretryableError::Unauthorized { message } => UnretryableError::Unauthorized {
                message: message.clone(),
            },
            UnretryableError::NotFound => UnretryableError::NotFound,
            UnretryableError::ServiceUnavailable { status, description } =>
                UnretryableError::ServiceUnavailable {
                status: status.clone(),
                description: description.clone(),
            },
            UnretryableError::Internal { message } => UnretryableError::Internal {
                message: message.clone(),
            },
            UnretryableError::Cancelled => UnretryableError::Cancelled,
            UnretryableError::Io { source } => UnretryableError::Io { source: source.clone() },
            UnretryableError::RangeStreamNotSupported =>
                UnretryableError::RangeStreamNotSupported,
            UnretryableError::Whatever { message, source } => UnretryableError::Whatever {
                message: message.clone(),
                source: match source {
                    Some(text) => Some(text.clone()),
                    None => None,
                },
            },
        }
    }
}

impl Clone for AdapterError {
    fn clone(&self) -> (error: Self)
        ensures
            error == *self,
    {
        match self {
            AdapterError::Retryable { source } => AdapterError::Retryable {
                source: source.clone(),
            },
            AdapterError::Unretryable { source } => AdapterError::Unretryable {
                source: source.clone(),
            },
        }
    }
}

impl RetryableError {
    /// The message of the error.
    pub open spec fn text(self) -> Seq<char> {
        "io error: "@ + self->source.message@
    }

    /// The message of the error.
    pub fn message(&self) -> (text: String)
        ensures
            text@ == self.text(),
    {
        match self {
            RetryableError::Io { source } => prefixed("io error: ", source.message.as_str()),
        }
    }
}

impl UnretryableError {
    /// The message of the error.
    pub open spec fn text(self) -> Seq<char> {
        match self {
            UnretryableError::Unauthorized { message } => "access denied: "@ + message@,
            UnretryableError::NotFound => "resource not found"@,
            UnretryableError::ServiceUnavailable { status, description } =>
                "service unavailable: "@ + status@ + " "@ + description@,
            UnretryableError::Internal { message } => "internal error: "@ + message@,
            UnretryableError::Cancelled => "task cancelled"@,
            UnretryableError::Io { source } => "io error: "@ + source.message@,
            UnretryableError::RangeStreamNotSupported => "range stream is not supported"@,
            UnretryableError::Whatever { message, .. } => message@,
        }
    }

    /// The message of the error.
    pub fn message(&self) -> (text: String)
        ensures
            text@ == self.text(),
    {
        match self {
            UnretryableError::Unauthorized { message } => prefixed(
                "access denied: ",
                message.as_str(),
            ),
            UnretryableError::NotFound => "resource not found".to_string(),
            UnretryableError::ServiceUnavailable { status, description } => {
                let mut text = prefixed("service unavailable: ", status.as_str());
                text.append(" ");
                text.append(description.as_str());
                text
            },
            UnretryableError::Internal { message } => prefixed(
                "internal error: ",
                message.as_str(),
            ),
            UnretryableError::Cancelled => "task cancelled".to_string(),
            UnretryableError::Io { source } => prefixed("io error: ", source.message.as_str()),
            UnretryableError::RangeStreamNotSupported =>
                "range stream is not supported".to_string(),
            UnretryableError::Whatever { message, .. } => message.clone(),
        }
    }

    /// The same cause, no longer to be tried again.
    pub fn from_retryable_error(e: RetryableError) -> (error: Self)
        ensures
            error == (UnretryableError::Io { source: e->source }),
    {
        match e {
            RetryableError::Io { source } => UnretryableError::Io { source },
        }
    }

    /// An input/output error that stays.
    pub fn from_io_error(source: IoError) -> (error: Self)
        ensures
            error == (UnretryableError::Io { source }),
    {
        UnretryableError::Io { source }
    }
}

impl AdapterError {
    /// The message of the error.
    pub open spec fn text(self) -> Seq<char> {
        match self {
            AdapterError::Retryable { source } => "retryable error: "@ + source.text(),
            AdapterError::Unretryable { source } => "unretryable error: "@ + source.text(),
        }
    }

    /// The message of the error.
    pub fn message(&self) -> (text: String)
        ensures
            text@ == self.text(),
    {
        match self {
            AdapterError::Retryable { source } => prefixed(
                "retryable error: ",
                source.message().as_str(),
            ),
            AdapterError::Unretryable { source } => prefixed(
                "unretryable error: ",
                source.message().as_str(),
            ),
        }
    }

    /// The operation may be tried again.
    pub open spec fn retryable(self) -> bool {
        self is Retryable
    }

    /// Whether the operation may be tried again.
    pub fn is_retryable(&self) -> (retryable: bool)
        ensures
            retryable == self.retryable(),
    {
        matches!(self, AdapterError::Retryable { .. })
    }
}

impl From<RetryableError> for AdapterError {
    fn from(e: RetryableError) -> (error: Self) {
        AdapterError::Retryable { source: e }
    }
}

impl vstd::std_specs::convert::FromSpecImpl<RetryableError> for AdapterError {
    open spec fn obeys_from_spec() -> bool {
        true
    }

    open spec fn from_spec(e: RetryableError) -> Self {
        AdapterError::Retryable { source: e }
    }
}

impl From<UnretryableError> for AdapterError {
    fn from(e: UnretryableError) -> (error: Self) {
        AdapterError::Unretryable { source: e }
    }
}

impl vstd::std_specs::convert::FromSpecImpl<UnretryableError> for AdapterError {
    open spec fn obeys_from_spec() -> bool {
        true
    }

    open spec fn from_spec(e: UnretryableError) -> Self {
        AdapterError::Unretryable { source: e }
    }
}

} // verus!
