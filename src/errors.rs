//! Error types of the library.

use vstd::prelude::*;
use crate::decimal::{int_text, int_to_text};

verus! {

/// Errors as reported across the application boundary, each with a message.
#[derive(Debug, PartialEq, Eq)]
pub enum DataError {
    Database(String),
    FileSystem(String),
    Serialization(String),
    Custom(String),
}

impl From<String> for DataError {
    fn from(error: String) -> (r: DataError)
        ensures
            r == DataError::Custom(error),
    {
        DataError::Custom(error)
    }
}

impl vstd::std_specs::convert::FromSpecImpl<String> for DataError {
    open spec fn obeys_from_spec() -> bool {
        true
    }

    open spec fn from_spec(error: String) -> DataError {
        DataError::Custom(error)
    }
}

/// The kind of record an id refers to.
#[derive(Debug, Clone, Copy, PartialEq, Eq, Structural)]
pub enum RecordKind {
    Document,
    Cheque,
}

/// Why a lifecycle operation was refused.
#[derive(Debug, Clone, Copy, PartialEq, Eq, Structural)]
pub enum LifecycleError {
    /// The requested status is not one of Pending, Approved, Declined.
    InvalidStatus,
    /// No record of that kind has that id.
    NotFound { kind: RecordKind, id: i64 },
    /// A decline reason is empty or only whitespace.
    EmptyReason,
    /// A document name is empty or only whitespace.
    EmptyName,
    /// The document is locked and cannot be deleted.
    Locked,
    /// The store cannot take the change (an id or a counter is exhausted).
    Storage,
}

/// The message that reports a lifecycle error.
pub open spec fn lifecycle_message(e: LifecycleError) -> Seq<char> {
    match e {
        LifecycleError::InvalidStatus => "Invalid status. Must be one of: Approved, Declined, or Pending"@,
        LifecycleError::NotFound { kind, id } => (match kind {
            RecordKind::Document => "Document with ID "@,
            RecordKind::Cheque => "Cheque with ID "@,
        }) + int_text(id as int) + " not found"@,
        LifecycleError::EmptyReason => "Decline reason cannot be empty"@,
        LifecycleError::EmptyName => "Document name cannot be empty"@,
        LifecycleError::Locked => "Cannot delete: Document is locked. Documents are locked after printing to maintain audit trail."@,
        LifecycleError::Storage => "The store cannot take the change"@,
    }
}

impl LifecycleError {
    /// A message naming the record or the rule concerned.
    pub fn message(&self) -> (r: String)
        ensures
            r@ == lifecycle_message(*self),
    {
        match self {
            LifecycleError::InvalidStatus => String::from_str(
                "Invalid status. Must be one of: Approved, Declined, or Pending",
            ),
            LifecycleError::NotFound { kind, id } => {
                let mut s = match kind {
                    RecordKind::Document => String::from_str("Document with ID "),
                    RecordKind::Cheque => String::from_str("Cheque with ID "),
                };
                let digits = int_to_text(*id);
                s.append(digits.as_str());
                s.append(" not found");
                s
            },
            LifecycleError::EmptyReason => String::from_str("Decline reason cannot be empty"),
            LifecycleError::EmptyName => String::from_str("Document name cannot be empty"),
            LifecycleError::Locked => String::from_str(
                "Cannot delete: Document is locked. Documents are locked after printing to maintain audit trail.",
            ),
            LifecycleError::Storage => String::from_str("The store cannot take the change"),
        }
    }
}

} // verus!
