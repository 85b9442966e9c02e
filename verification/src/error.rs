//! The ways a query can fail.

use vstd::prelude::*;

verus! {

/// Why a search, or a step of it, gave no result.
#[derive(Clone, Copy, Debug, PartialEq, Eq, Structural)]
pub enum SearchError {
    /// No folder of the account has the name that was asked for.
    FolderNotFound,
    /// The subject pattern is no regular expression.
    InvalidPattern,
    /// The bytes of a message cannot be read as MIME.
    MalformedMessage,
    /// The size that an attachment declares is no unsigned number.
    InvalidAttachmentMetadata,
}

impl SearchError {
    /// A sentence for the error, for a person to read.
    pub fn to_string(&self) -> (r: String)
        ensures
            r@ == match *self {
                SearchError::FolderNotFound => "folder not found"@,
                SearchError::InvalidPattern => "invalid subject pattern"@,
                SearchError::MalformedMessage => "malformed message"@,
                SearchError::InvalidAttachmentMetadata => "invalid attachment metadata"@,
            },
    {
        match self {
            SearchError::FolderNotFound => "folder not found".to_owned(),
            SearchError::InvalidPattern => "invalid subject pattern".to_owned(),
            SearchError::MalformedMessage => "malformed message".to_owned(),
            SearchError::InvalidAttachmentMetadata => "invalid attachment metadata".to_owned(),
        }
    }
}

} // verus!
