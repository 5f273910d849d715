use vstd::prelude::*;

verus! {

/// A failure reported by the database service or the channel to it.
#[derive(Debug, Clone, PartialEq, Eq)]
pub struct FirestoreDatabaseError {
    /// Whether sending the same request again may succeed.
    pub retry_possible: bool,
    pub details: String,
}

/// Everything that can go wrong while retrieving documents.
#[derive(Debug, Clone, PartialEq, Eq)]
pub enum FirestoreError {
    /// A document identifier could not be turned into a document path.
    InvalidParametersError(String),
    /// The request failed on the way or at the service.
    DatabaseError(FirestoreDatabaseError),
    /// The service holds no document under the requested path.
    DataNotFoundError(String),
    /// The document's fields do not have the shape of the requested type.
    DeserializeError(String),
}

pub type FirestoreResult<T> = Result<T, FirestoreError>;

impl FirestoreError {
    /// A database failure that is marked as worth another attempt.
    pub open spec fn is_retryable(self) -> bool {
        match self {
            FirestoreError::DatabaseError(e) => e.retry_possible,
            _ => false,
        }
    }

    pub open spec fn is_not_found(self) -> bool {
        self is DataNotFoundError
    }

    pub fn retry_possible(&self) -> (b: bool)
        ensures
            b == self.is_retryable(),
    {
        match self {
            FirestoreError::DatabaseError(e) => e.retry_possible,
            _ => false,
        }
    }

    pub fn not_found(&self) -> (b: bool)
        ensures
            b == self.is_not_found(),
    {
        match self {
            FirestoreError::DataNotFoundError(_) => true,
            _ => false,
        }
    }
}

} // verus!
