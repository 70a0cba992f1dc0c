//! The failures that a synchronisation can report.

use vstd::prelude::*;
use vstd::string::StringExecFns;

verus! {

/// Which part of the pipeline failed.
#[derive(Clone, Copy, Debug, PartialEq, Eq, Structural)]
pub enum ErrorKind {
    /// The request could not be sent or the response could not be read.
    Network,
    /// The response body does not have the expected shape.
    Decode,
    /// The pagination metadata of a response cannot be read.
    Header,
    /// The relational store refused a schema change or a write.
    Store,
}

/// A failure: its kind, a short tag that names the operation that failed
/// (for a request, with the URL on a second line), and the underlying cause.
#[derive(Debug)]
pub struct SyncError {
    pub kind: ErrorKind,
    pub context: String,
    pub cause: String,
}

/// The mathematical value of a [`SyncError`].
pub struct SyncErrorView {
    pub kind: ErrorKind,
    pub context: Seq<char>,
    pub cause: Seq<char>,
}

impl View for SyncError {
    type V = SyncErrorView;

    open spec fn view(&self) -> SyncErrorView {
        SyncErrorView { kind: self.kind, context: self.context@, cause: self.cause@ }
    }
}

/// The text that separates the tag from the cause in a rendered error.
pub open spec fn message_separator() -> Seq<char> {
    seq![':', ' ']
}

impl SyncErrorView {
    /// The error as one line of text: the tag, a colon and the cause.
    pub open spec fn message(self) -> Seq<char> {
        self.context + message_separator() + self.cause
    }
}

impl SyncError {
    /// An error of the given kind.
    pub fn new(kind: ErrorKind, context: &str, cause: &str) -> (e: Self)
        ensures
            e@ == (SyncErrorView { kind, context: context@, cause: cause@ }),
    {
        SyncError { kind, context: String::from_str(context), cause: String::from_str(cause) }
    }

    /// An error of the given kind whose tag carries the URL of the request
    /// that failed, on a line of its own.
    pub fn for_url(kind: ErrorKind, context: &str, url: &str, cause: &str) -> (e: Self)
        ensures
            e@ == (SyncErrorView {
                kind,
                context: context@ + seq!['\n'] + url@,
                cause: cause@,
            }),
    {
        proof {
            reveal_strlit("\n");
        }
        let mut tag = String::from_str(context);
        tag.append("\n");
        tag.append(url);
        assert(tag@ =~= context@ + seq!['\n'] + url@);
        SyncError { kind, context: tag, cause: String::from_str(cause) }
    }

    /// A copy of this error.
    pub fn duplicate(&self) -> (e: Self)
        ensures
            e == *self,
    {
        SyncError { kind: self.kind, context: self.context.clone(), cause: self.cause.clone() }
    }

    /// The error as text, for display.
    pub fn message(&self) -> (text: String)
        ensures
            text@ == self@.message(),
    {
        proof {
            reveal_strlit(": ");
        }
        let mut text = self.context.clone();
        text.append(": ");
        text.append(self.cause.as_str());
        text
    }
}

} // verus!
