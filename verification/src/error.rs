//! The error taxonomy of the engine, and how an object-store failure is
//! sorted into it.

use crate::text::{is_substring, str_contains};
use vstd::prelude::*;
use vstd::string::StringExecFns;

verus! {

/// A failure of the storage engine. Each variant carries its message.
#[derive(Debug)]
pub enum StorageError {
    /// A backend failure that fits no other variant; the message is the whole
    /// error chain.
    ObjectStoreError(String),
    /// A local file operation failed.
    IoError(String),
    /// Malformed or missing configuration.
    ConfigError(String),
    /// The temporary file could not be moved to its destination.
    TempFileError(String),
    /// A transport-level failure; the caller may retry.
    RetryExhaustedError(String),
    /// The object is absent.
    NotFound(String),
    /// The backend refused the operation.
    PermissionError(String),
    /// The credential source failed to fetch or refresh; the caller may retry.
    CredentialSourceError(String),
}

/// The class that the text of a backend error chain falls into.
#[derive(Clone, Copy, Debug, PartialEq, Eq, Structural)]
pub enum ErrorClass {
    NotFound,
    RetryExhausted,
    PermissionDenied,
    Generic,
}

/// The text marks an absent object.
pub open spec fn mentions_absence(text: Seq<char>) -> bool {
    is_substring("not found"@, text) || is_substring("404 Not Found"@, text) || is_substring(
        "NoSuchKey"@,
        text,
    )
}

/// The text marks a transport failure.
pub open spec fn mentions_transport_failure(text: Seq<char>) -> bool {
    is_substring("HTTP error: error sending request"@, text) || is_substring(
        "HTTP error: request or response body error"@,
        text,
    )
}

/// The text marks a refused operation.
pub open spec fn mentions_refusal(text: Seq<char>) -> bool {
    is_substring("The operation lacked the necessary privileges"@, text) || is_substring(
        "403 Forbidden"@,
        text,
    )
}

/// Classification by the marks that the text holds: absence first, then
/// transport failure, then refusal; a text with none of them is generic.
pub open spec fn class_of(text: Seq<char>) -> ErrorClass {
    if mentions_absence(text) {
        ErrorClass::NotFound
    } else if mentions_transport_failure(text) {
        ErrorClass::RetryExhausted
    } else if mentions_refusal(text) {
        ErrorClass::PermissionDenied
    } else {
        ErrorClass::Generic
    }
}

/// The error that stands for a backend failure with the given chain text.
pub open spec fn classified(text: String) -> StorageError {
    match class_of(text@) {
        ErrorClass::NotFound => StorageError::NotFound(text),
        ErrorClass::RetryExhausted => StorageError::RetryExhaustedError(text),
        ErrorClass::PermissionDenied => StorageError::PermissionError(text),
        ErrorClass::Generic => StorageError::ObjectStoreError(text),
    }
}

/// The messages of a chain, joined by `sep`.
pub open spec fn joined(parts: Seq<Seq<char>>, sep: Seq<char>) -> Seq<char>
    decreases parts.len(),
{
    if parts.len() == 0 {
        Seq::empty()
    } else if parts.len() == 1 {
        parts[0]
    } else {
        joined(parts.drop_last(), sep) + sep + parts.last()
    }
}

/// The views of a chain's messages.
pub open spec fn message_views(chain: Seq<String>) -> Seq<Seq<char>> {
    chain.map_values(|m: String| m@)
}

/// Which class the text of an error chain falls into.
pub fn classify_text(text: &str) -> (class: ErrorClass)
    ensures
        class == class_of(text@),
{
    if str_contains(text, "not found") || str_contains(text, "404 Not Found") || str_contains(
        text,
        "NoSuchKey",
    ) {
        ErrorClass::NotFound
    } else if str_contains(text, "HTTP error: error sending request") || str_contains(
        text,
        "HTTP error: request or response body error",
    ) {
        ErrorClass::RetryExhausted
    } else if str_contains(text, "The operation lacked the necessary privileges") || str_contains(
        text,
        "403 Forbidden",
    ) {
        ErrorClass::PermissionDenied
    } else {
        ErrorClass::Generic
    }
}

/// Joins the messages of an error chain, outermost first, with `" -> "`.
pub fn join_chain(chain: &Vec<String>) -> (text: String)
    ensures
        text@ == joined(message_views(chain@), " -> "@),
{
    let mut text = String::new();
    let n: usize = chain.len();
    let mut i: usize = 0;
    while i < n
        invariant
            n == chain@.len(),
            i <= n,
            text@ == joined(message_views(chain@).take(i as int), " -> "@),
        decreases n - i,
    {
        proof {
            let views = message_views(chain@);
            assert(views.take(i + 1).drop_last() == views.take(i as int));
            assert(views.take(i + 1).last() == chain@[i as int]@);
        }
        if i > 0 {
            text.append(" -> ");
        }
        text.append(chain[i].as_str());
        i = i + 1;
    }
    proof {
        assert(message_views(chain@).take(n as int) == message_views(chain@));
    }
    text
}

impl StorageError {
    /// The message that the error carries.
    pub open spec fn detail(self) -> String {
        match self {
            StorageError::ObjectStoreError(m) => m,
            StorageError::IoError(m) => m,
            StorageError::ConfigError(m) => m,
            StorageError::TempFileError(m) => m,
            StorageError::RetryExhaustedError(m) => m,
            StorageError::NotFound(m) => m,
            StorageError::PermissionError(m) => m,
            StorageError::CredentialSourceError(m) => m,
        }
    }

    /// What introduces the message when the error is shown.
    pub open spec fn heading(self) -> Seq<char> {
        match self {
            StorageError::ObjectStoreError(_) => "Object store error: "@,
            StorageError::IoError(_) => "IO error: "@,
            StorageError::ConfigError(_) => "Configuration error: "@,
            StorageError::TempFileError(_) => "Temp file error: "@,
            StorageError::RetryExhaustedError(_) => "Connection error: "@,
            StorageError::NotFound(_) => "Object not found: "@,
            StorageError::PermissionError(_) => "Permission error: "@,
            StorageError::CredentialSourceError(_) => "Credential source error: "@,
        }
    }

    /// The error for a backend failure whose chain text is `text`.
    pub fn classify(text: String) -> (e: StorageError)
        ensures
            e == classified(text),
    {
        match classify_text(text.as_str()) {
            ErrorClass::NotFound => StorageError::NotFound(text),
            ErrorClass::RetryExhausted => StorageError::RetryExhaustedError(text),
            ErrorClass::PermissionDenied => StorageError::PermissionError(text),
            ErrorClass::Generic => StorageError::ObjectStoreError(text),
        }
    }

    /// The error for a backend failure with the given chain of messages,
    /// outermost first.
    pub fn from_chain(chain: &Vec<String>) -> (e: StorageError)
        ensures
            e.detail()@ == joined(message_views(chain@), " -> "@),
            e == classified(e.detail()),
    {
        StorageError::classify(join_chain(chain))
    }

    /// The error as text: its heading, then its message.
    pub fn to_string(&self) -> (text: String)
        ensures
            text@ == self.heading() + self.detail()@,
    {
        match self {
            StorageError::ObjectStoreError(m) => String::from_str("Object store error: ").concat(
                m.as_str(),
            ),
            StorageError::IoError(m) => String::from_str("IO error: ").concat(m.as_str()),
            StorageError::ConfigError(m) => String::from_str("Configuration error: ").concat(
                m.as_str(),
            ),
            StorageError::TempFileError(m) => String::from_str("Temp file error: ").concat(
                m.as_str(),
            ),
            StorageError::RetryExhaustedError(m) => String::from_str("Connection error: ").concat(
                m.as_str(),
            ),
            StorageError::NotFound(m) => String::from_str("Object not found: ").concat(m.as_str()),
            StorageError::PermissionError(m) => String::from_str("Permission error: ").concat(
                m.as_str(),
            ),
            StorageError::CredentialSourceError(m) => String::from_str(
                "Credential source error: ",
            ).concat(m.as_str()),
        }
    }
}

/// The error type of the `object_store` crate. Nothing inside it is visible
/// here: it is only handed to [`error_chain_messages`].
#[verifier::external_type_specification]
#[verifier::external_body]
pub struct ExObjectStoreError(object_store::Error);

/// The texts of a backend error and of each error below it, outermost first:
/// what `Display` renders for the error, then for every `source()` in turn.
pub uninterp spec fn chain_texts(err: object_store::Error) -> Seq<Seq<char>>;

/// Renders an `object_store::Error` and each error below it, outermost first:
/// the error's own `Display` text, then that of every `source()` in turn. The
/// texts depend on the error alone, so they are named `chain_texts(err)`. A
/// chain holds at least the error's own text; nothing else is claimed of what
/// the texts say.
#[verifier::external_body]
pub(crate) fn error_chain_messages(err: &object_store::Error) -> (chain: Vec<String>)
    ensures
        message_views(chain@) == chain_texts(*err),
        chain@.len() >= 1,
{
    let mut chain = vec![err.to_string()];
    let mut current = std::error::Error::source(err);
    while let Some(source) = current {
        chain.push(source.to_string());
        current = source.source();
    }
    chain
}

/// The text of a backend error: its message and those of its causes, joined
/// with `" -> "`.
pub fn format_error_chain(err: &object_store::Error) -> (text: String)
    ensures
        text@ == joined(chain_texts(*err), " -> "@),
        chain_texts(*err).len() >= 1,
{
    let chain = error_chain_messages(err);
    join_chain(&chain)
}

impl StorageError {
    /// The error that stands for a backend error: its chain text, classified
    /// by the marks that the text holds.
    pub fn from(err: object_store::Error) -> (e: StorageError)
        ensures
            e.detail()@ == joined(chain_texts(err), " -> "@),
            e == classified(e.detail()),
    {
        StorageError::classify(format_error_chain(&err))
    }
}

/// How an error is raised to the caller of the binding.
#[derive(Clone, Copy, Debug, PartialEq, Eq, Structural)]
pub enum ExceptionKind {
    /// A bad value was passed in.
    Value,
    /// The operation may be tried again.
    Retryable,
    /// The operation was refused.
    Permission,
    /// The object does not exist.
    FileNotFound,
    /// Any other failure.
    Runtime,
}

impl StorageError {
    /// The kind of exception that the error is raised as.
    pub open spec fn exception_kind(self) -> ExceptionKind {
        match self {
            StorageError::ConfigError(_) => ExceptionKind::Value,
            StorageError::RetryExhaustedError(_) => ExceptionKind::Retryable,
            StorageError::CredentialSourceError(_) => ExceptionKind::Retryable,
            StorageError::PermissionError(_) => ExceptionKind::Permission,
            StorageError::NotFound(_) => ExceptionKind::FileNotFound,
            _ => ExceptionKind::Runtime,
        }
    }

    /// The exception that the error is raised as, and its text: the bare
    /// message, but for runtime failures, which show their heading too.
    pub fn into_exception(self) -> (raised: (ExceptionKind, String))
        ensures
            raised.0 == self.exception_kind(),
            raised.0 != ExceptionKind::Runtime ==> raised.1 == self.detail(),
            raised.0 == ExceptionKind::Runtime ==> raised.1@ == self.heading() + self.detail()@,
    {
        match self {
            StorageError::ConfigError(m) => (ExceptionKind::Value, m),
            StorageError::RetryExhaustedError(m) => (ExceptionKind::Retryable, m),
            StorageError::CredentialSourceError(m) => (ExceptionKind::Retryable, m),
            StorageError::PermissionError(m) => (ExceptionKind::Permission, m),
            StorageError::NotFound(m) => (ExceptionKind::FileNotFound, m),
            other => {
                let text = other.to_string();
                (ExceptionKind::Runtime, text)
            },
        }
    }
}

/// A chain text that holds `NoSuchKey` is classified as an absent object.
pub proof fn lemma_no_such_key_is_not_found(text: Seq<char>)
    requires
        is_substring("NoSuchKey"@, text),
    ensures
        class_of(text) == ErrorClass::NotFound,
{
}

/// A chain text that holds `403 Forbidden`, and no mark of an absent object or
/// of a transport failure, is classified as a refused operation.
pub proof fn lemma_forbidden_is_permission_denied(text: Seq<char>)
    requires
        is_substring("403 Forbidden"@, text),
        !mentions_absence(text),
        !mentions_transport_failure(text),
    ensures
        class_of(text) == ErrorClass::PermissionDenied,
{
}

/// A chain text that holds none of the marks is classified as generic.
pub proof fn lemma_unmarked_is_generic(text: Seq<char>)
    requires
        !mentions_absence(text),
        !mentions_transport_failure(text),
        !mentions_refusal(text),
    ensures
        class_of(text) == ErrorClass::Generic,
{
}

} // verus!
