//! The error taxonomy of the pipeline.
//!
//! Every fallible step maps its underlying failure into exactly one of these
//! kinds at the point of occurrence; no kind is silently swallowed or retried.

use vstd::prelude::*;

verus! {

/// One error per failure class of the pipeline, each carrying a
/// human-readable message.
#[derive(Debug)]
pub enum CompilerApiError {
    /// The submission was malformed or incomplete: the caller's fault.
    InvalidInput { message: String },
    /// Local storage failed while materializing the submission.
    FileSystemError { message: String },
    /// The submitted program ran and failed: the caller's fault.
    ExecutionError { message: String },
    /// The submitted program crashed the runtime with an uncaught fault.
    PanicError { message: String },
    /// The runner could not even be launched, or a response could not be built.
    InternalError { message: String },
    /// The remote blob store rejected a request or was unreachable.
    WalrusApiError { message: String },
}

/// The kind of a `CompilerApiError`, without its message.
#[derive(Clone, Copy, Debug, PartialEq, Eq, Structural)]
pub enum ErrorKind {
    InvalidInput,
    FileSystemError,
    ExecutionError,
    PanicError,
    InternalError,
    WalrusApiError,
}

impl CompilerApiError {
    pub open spec fn kind_spec(&self) -> ErrorKind {
        match self {
            CompilerApiError::InvalidInput { .. } => ErrorKind::InvalidInput,
            CompilerApiError::FileSystemError { .. } => ErrorKind::FileSystemError,
            CompilerApiError::ExecutionError { .. } => ErrorKind::ExecutionError,
            CompilerApiError::PanicError { .. } => ErrorKind::PanicError,
            CompilerApiError::InternalError { .. } => ErrorKind::InternalError,
            CompilerApiError::WalrusApiError { .. } => ErrorKind::WalrusApiError,
        }
    }

    pub open spec fn message_spec(&self) -> Seq<char> {
        match self {
            CompilerApiError::InvalidInput { message } => message@,
            CompilerApiError::FileSystemError { message } => message@,
            CompilerApiError::ExecutionError { message } => message@,
            CompilerApiError::PanicError { message } => message@,
            CompilerApiError::InternalError { message } => message@,
            CompilerApiError::WalrusApiError { message } => message@,
        }
    }

    pub fn kind(&self) -> (k: ErrorKind)
        ensures
            k == self.kind_spec(),
    {
        match self {
            CompilerApiError::InvalidInput { .. } => ErrorKind::InvalidInput,
            CompilerApiError::FileSystemError { .. } => ErrorKind::FileSystemError,
            CompilerApiError::ExecutionError { .. } => ErrorKind::ExecutionError,
            CompilerApiError::PanicError { .. } => ErrorKind::PanicError,
            CompilerApiError::InternalError { .. } => ErrorKind::InternalError,
            CompilerApiError::WalrusApiError { .. } => ErrorKind::WalrusApiError,
        }
    }

    pub fn message(&self) -> (m: &String)
        ensures
            m@ == self.message_spec(),
    {
        match self {
            CompilerApiError::InvalidInput { message } => message,
            CompilerApiError::FileSystemError { message } => message,
            CompilerApiError::ExecutionError { message } => message,
            CompilerApiError::PanicError { message } => message,
            CompilerApiError::InternalError { message } => message,
            CompilerApiError::WalrusApiError { message } => message,
        }
    }

    /// An invalid submission or a failing submitted program is the caller's
    /// fault; every other kind is an operational or dependency fault.
    pub open spec fn is_client_fault_spec(&self) -> bool {
        self.kind_spec() == ErrorKind::InvalidInput || self.kind_spec() == ErrorKind::ExecutionError
    }

    pub fn is_client_fault(&self) -> (r: bool)
        ensures
            r == self.is_client_fault_spec(),
    {
        match self {
            CompilerApiError::InvalidInput { .. } => true,
            CompilerApiError::ExecutionError { .. } => true,
            _ => false,
        }
    }

    /// The HTTP status class each kind is reported with: client faults as a
    /// client error, everything else as a server error.
    pub fn http_status(&self) -> (s: u16)
        ensures
            self.is_client_fault_spec() ==> s == 400,
            !self.is_client_fault_spec() ==> s == 500,
    {
        if self.is_client_fault() {
            400
        } else {
            500
        }
    }
}

} // verus!
