//! The failure sum type shared by every operation of the crate.

use vstd::prelude::*;

verus! {

/// The category of a raw I/O failure, as the platform reports it.
#[derive(Debug, Clone, Copy, PartialEq, Eq, Structural)]
pub enum IoKind {
    /// The path did not exist.
    NotFound,
    /// Access was denied.
    PermissionDenied,
    /// The target already existed.
    AlreadyExists,
    /// Any other kind of I/O failure.
    Other,
}

/// The main error type for file-management operations.
#[derive(Debug, Clone)]
pub enum ZError {
    /// An I/O error occurred while accessing the filesystem.
    Io { path: String, message: String },
    /// Permission denied when accessing a path.
    PermissionDenied { path: String },
    /// The specified path was not found.
    NotFound { path: String },
    /// The path is not a directory (when a directory was expected).
    NotADirectory { path: String },
    /// The path is not a file (when a file was expected).
    NotAFile { path: String },
    /// A file or directory already exists at the target path.
    AlreadyExists { path: String },
    /// A directory is not empty (when trying to delete non-recursively).
    DirectoryNotEmpty { path: String },
    /// The path contains invalid characters or is malformed.
    InvalidPath { path: String, reason: String },
    /// A symlink or junction target could not be resolved.
    LinkResolutionFailed { path: String, reason: String },
    /// An operation was cancelled by the user.
    Cancelled,
    /// An invalid operation was attempted.
    InvalidOperation { operation: String, reason: String },
    /// A transfer operation failed.
    TransferFailed { message: String },
    /// Configuration error.
    Config { message: String },
    /// A Windows-specific error occurred.
    Windows { code: u32, message: String },
    /// An internal error that should not occur in normal operation.
    Internal { message: String },
}

impl ZError {
    /// Create an I/O error with path context.
    pub fn io(path: String, message: String) -> (r: ZError)
        ensures
            r == (ZError::Io { path, message }),
    {
        ZError::Io { path, message }
    }

    /// Create from a raw I/O failure, inferring the appropriate variant.
    pub fn from_io(path: String, kind: IoKind, message: String) -> (r: ZError)
        ensures
            kind == IoKind::NotFound ==> r == (ZError::NotFound { path }),
            kind == IoKind::PermissionDenied ==> r == (ZError::PermissionDenied { path }),
            kind == IoKind::AlreadyExists ==> r == (ZError::AlreadyExists { path }),
            kind == IoKind::Other ==> r == (ZError::Io { path, message }),
    {
        match kind {
            IoKind::NotFound => ZError::NotFound { path },
            IoKind::PermissionDenied => ZError::PermissionDenied { path },
            IoKind::AlreadyExists => ZError::AlreadyExists { path },
            IoKind::Other => ZError::Io { path, message },
        }
    }

    /// Check if this error represents a "not found" condition.
    pub fn is_not_found(&self) -> (r: bool)
        ensures
            r == (self is NotFound),
    {
        match self {
            ZError::NotFound { .. } => true,
            _ => false,
        }
    }

    /// Check if this error represents a permission issue.
    pub fn is_permission_denied(&self) -> (r: bool)
        ensures
            r == (self is PermissionDenied),
    {
        match self {
            ZError::PermissionDenied { .. } => true,
            _ => false,
        }
    }

    /// Check if this error represents a cancellation.
    pub fn is_cancelled(&self) -> (r: bool)
        ensures
            r == (self is Cancelled),
    {
        match self {
            ZError::Cancelled => true,
            _ => false,
        }
    }

    /// The path this error speaks of, if any.
    pub open spec fn spec_path(&self) -> Option<Seq<char>> {
        match *self {
            ZError::Io { path, .. } => Some(path@),
            ZError::PermissionDenied { path } => Some(path@),
            ZError::NotFound { path } => Some(path@),
            ZError::NotADirectory { path } => Some(path@),
            ZError::NotAFile { path } => Some(path@),
            ZError::AlreadyExists { path } => Some(path@),
            ZError::DirectoryNotEmpty { path } => Some(path@),
            ZError::InvalidPath { path, .. } => Some(path@),
            ZError::LinkResolutionFailed { path, .. } => Some(path@),
            _ => None,
        }
    }

    /// Get the path associated with this error, if any.
    pub fn path(&self) -> (r: Option<&String>)
        ensures
            match r {
                Some(p) => self.spec_path() == Some(p@),
                None => self.spec_path() is None,
            },
    {
        match self {
            ZError::Io { path, .. } => Some(path),
            ZError::PermissionDenied { path } => Some(path),
            ZError::NotFound { path } => Some(path),
            ZError::NotADirectory { path } => Some(path),
            ZError::NotAFile { path } => Some(path),
            ZError::AlreadyExists { path } => Some(path),
            ZError::DirectoryNotEmpty { path } => Some(path),
            ZError::InvalidPath { path, .. } => Some(path),
            ZError::LinkResolutionFailed { path, .. } => Some(path),
            _ => None,
        }
    }

    /// The user-facing description of this error.
    pub open spec fn spec_message(&self) -> Seq<char> {
        match *self {
            ZError::Io { path, message } => "I/O error at '"@ + path@ + "': "@ + message@,
            ZError::PermissionDenied { path } => "Permission denied: '"@ + path@ + "'"@,
            ZError::NotFound { path } => "Path not found: '"@ + path@ + "'"@,
            ZError::NotADirectory { path } => "Not a directory: '"@ + path@ + "'"@,
            ZError::NotAFile { path } => "Not a file: '"@ + path@ + "'"@,
            ZError::AlreadyExists { path } => "Already exists: '"@ + path@ + "'"@,
            ZError::DirectoryNotEmpty { path } => "Directory not empty: '"@ + path@ + "'"@,
            ZError::InvalidPath { path, reason } => "Invalid path: '"@ + path@ + "' - "@
                + reason@,
            ZError::LinkResolutionFailed { path, reason } => "Failed to resolve link at '"@ + path@
                + "': "@ + reason@,
            ZError::Cancelled => "Operation cancelled"@,
            ZError::InvalidOperation { operation, reason } => "Invalid operation '"@ + operation@
                + "': "@ + reason@,
            ZError::TransferFailed { message } => "Transfer failed: "@ + message@,
            ZError::Config { message } => "Configuration error: "@ + message@,
            ZError::Windows { code, message } => "Windows error (code "@ + crate::text::dec_str(
                code as nat,
            ) + "): "@ + message@,
            ZError::Internal { message } => "Internal error: "@ + message@,
        }
    }

    /// Render the user-facing description of this error.
    pub fn message(&self) -> (r: String)
        ensures
            r@ == self.spec_message(),
    {
        match self {
            ZError::Io { path, message } => {
                let mut s = "I/O error at '".to_owned();
                s.append(path.as_str());
                s.append("': ");
                s.append(message.as_str());
                proof {
                    assert(s@ =~= self.spec_message());
                }
                s
            },
            ZError::PermissionDenied { path } => wrap_path("Permission denied: '", path),
            ZError::NotFound { path } => wrap_path("Path not found: '", path),
            ZError::NotADirectory { path } => wrap_path("Not a directory: '", path),
            ZError::NotAFile { path } => wrap_path("Not a file: '", path),
            ZError::AlreadyExists { path } => wrap_path("Already exists: '", path),
            ZError::DirectoryNotEmpty { path } => wrap_path("Directory not empty: '", path),
            ZError::InvalidPath { path, reason } => {
                let mut s = "Invalid path: '".to_owned();
                s.append(path.as_str());
                s.append("' - ");
                s.append(reason.as_str());
                proof {
                    assert(s@ =~= self.spec_message());
                }
                s
            },
            ZError::LinkResolutionFailed { path, reason } => {
                let mut s = "Failed to resolve link at '".to_owned();
                s.append(path.as_str());
                s.append("': ");
                s.append(reason.as_str());
                proof {
                    assert(s@ =~= self.spec_message());
                }
                s
            },
            ZError::Cancelled => "Operation cancelled".to_owned(),
            ZError::InvalidOperation { operation, reason } => {
                let mut s = "Invalid operation '".to_owned();
                s.append(operation.as_str());
                s.append("': ");
                s.append(reason.as_str());
                proof {
                    assert(s@ =~= self.spec_message());
                }
                s
            },
            ZError::TransferFailed { message } => {
                let mut s = "Transfer failed: ".to_owned();
                s.append(message.as_str());
                s
            },
            ZError::Config { message } => {
                let mut s = "Configuration error: ".to_owned();
                s.append(message.as_str());
                s
            },
            ZError::Windows { code, message } => {
                let mut s = "Windows error (code ".to_owned();
                let num = crate::text::u64_to_string(*code as u64);
                s.append(num.as_str());
                s.append("): ");
                s.append(message.as_str());
                proof {
                    assert(s@ =~= self.spec_message());
                }
                s
            },
            ZError::Internal { message } => {
                let mut s = "Internal error: ".to_owned();
                s.append(message.as_str());
                s
            },
        }
    }
}

/// Concatenates a prefix, a path and a closing quote.
fn wrap_path(prefix: &str, path: &String) -> (r: String)
    ensures
        r@ == prefix@ + path@ + "'"@,
{
    let mut s = prefix.to_owned();
    s.append(path.as_str());
    s.append("'");
    proof {
        assert(s@ =~= prefix@ + path@ + "'"@);
    }
    s
}

/// A result whose error side is the crate's failure sum.
pub type ZResult<T> = Result<T, ZError>;

} // verus!
