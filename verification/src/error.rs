//! Errors that cross component boundaries.

use vstd::prelude::*;

verus! {

/// What can go wrong between the seed host, the copy tool and the job runner.
#[derive(Debug)]
pub enum AniplerError {
    /// The seed host answered with something that cannot be used.
    InvalidApiResponse(String),
    /// The copy tool failed for the destination `dest`.
    RsyncFailed { dest: String, reason: String },
    /// Another transfer batch holds the lease.
    OverlappingTransferJob,
}

/// The text of an [`AniplerError`].
pub open spec fn anipler_error_text(error: AniplerError) -> Seq<char> {
    match error {
        AniplerError::InvalidApiResponse(detail) => "API responded with an invalid response: "@
            + detail@,
        AniplerError::RsyncFailed { dest, reason } => "Rsync command failed for "@ + dest@ + ": "@
            + reason@,
        AniplerError::OverlappingTransferJob => "Another transfer job is already in progress"@,
    }
}

impl AniplerError {
    /// The error as a line of text.
    pub fn message(&self) -> (text: String)
        ensures
            text@ == anipler_error_text(*self),
    {
        match self {
            AniplerError::InvalidApiResponse(detail) => {
                let mut text = String::from_str("API responded with an invalid response: ");
                text.append(detail.as_str());
                text
            },
            AniplerError::RsyncFailed { dest, reason } => {
                let mut text = String::from_str("Rsync command failed for ");
                text.append(dest.as_str());
                text.append(": ");
                text.append(reason.as_str());
                text
            },
            AniplerError::OverlappingTransferJob => String::from_str(
                "Another transfer job is already in progress",
            ),
        }
    }
}

} // verus!
