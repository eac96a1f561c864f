//! The ways in which a run can fail.

use vstd::prelude::*;
use vstd::string::StringExecFns;

verus! {

/// Why a run ended without a result.
#[derive(Debug)]
pub enum RunError {
    /// A batch source could not be read.
    SourceUnavailable { source: String, cause: String },
    /// The contents of a batch source are not a list of well-formed posts.
    DecodeError { source: String, description: String },
}

/// What a `RunError` holds.
pub enum RunErrorView {
    SourceUnavailable { source: Seq<char>, cause: Seq<char> },
    DecodeError { source: Seq<char>, description: Seq<char> },
}

impl View for RunError {
    type V = RunErrorView;

    open spec fn view(&self) -> RunErrorView {
        match self {
            RunError::SourceUnavailable { source, cause } => RunErrorView::SourceUnavailable {
                source: source@,
                cause: cause@,
            },
            RunError::DecodeError { source, description } => RunErrorView::DecodeError {
                source: source@,
                description: description@,
            },
        }
    }
}

impl RunErrorView {
    /// The identifier of the batch source that failed.
    pub open spec fn source(self) -> Seq<char> {
        match self {
            RunErrorView::SourceUnavailable { source, .. } => source,
            RunErrorView::DecodeError { source, .. } => source,
        }
    }

    /// The sentence that reports the error: which source failed, and why.
    pub open spec fn message(self) -> Seq<char> {
        match self {
            RunErrorView::SourceUnavailable { source, cause } => "Failed to read file "@ + source
                + ": "@ + cause,
            RunErrorView::DecodeError { source, description } => "Failed to parse JSON in file "@
                + source + ": "@ + description,
        }
    }
}

impl RunError {
    /// The identifier of the batch source that failed.
    pub fn source(&self) -> (source: &str)
        ensures
            source@ == self@.source(),
    {
        match self {
            RunError::SourceUnavailable { source, .. } => source.as_str(),
            RunError::DecodeError { source, .. } => source.as_str(),
        }
    }

    /// A sentence that names the source and says why it failed.
    pub fn message(&self) -> (message: String)
        ensures
            message@ == self@.message(),
    {
        match self {
            RunError::SourceUnavailable { source, cause } => {
                let mut message = "Failed to read file ".to_owned();
                message.append(source.as_str());
                message.append(": ");
                message.append(cause.as_str());
                message
            },
            RunError::DecodeError { source, description } => {
                let mut message = "Failed to parse JSON in file ".to_owned();
                message.append(source.as_str());
                message.append(": ");
                message.append(description.as_str());
                message
            },
        }
    }

    /// An error of the same kind that holds the same texts.
    pub fn duplicate(&self) -> (copy: RunError)
        ensures
            copy@ == self@,
    {
        match self {
            RunError::SourceUnavailable { source, cause } => RunError::SourceUnavailable {
                source: source.clone(),
                cause: cause.clone(),
            },
            RunError::DecodeError { source, description } => RunError::DecodeError {
                source: source.clone(),
                description: description.clone(),
            },
        }
    }
}

} // verus!
