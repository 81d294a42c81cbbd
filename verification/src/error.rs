//! Typed errors of the library.

use vstd::prelude::*;

verus! {

/// Errors raised by the library's operations.  Variants that carry
/// floating-point context (backward seeks, clock starvation) and wrapped
/// I/O or serialisation errors belong to the application crate, which
/// embeds this type.
#[derive(Debug, Clone)]
pub enum Error {
    SessionNotFound(String),
    EpisodeNotFound(String),
    FrameNotFound(String),
    NoActiveEpisode(String),
    TriggerFailed { reason: String },
    InvalidArgument(String),
    Browser(String),
}

/// Human-readable text of an error.
pub open spec fn error_text(e: Error) -> Seq<char> {
    match e {
        Error::SessionNotFound(s) => "session not found: "@ + s@,
        Error::EpisodeNotFound(s) => "episode not found: "@ + s@,
        Error::FrameNotFound(s) => "frame not found: "@ + s@,
        Error::NoActiveEpisode(s) => "no active episode on session "@ + s@,
        Error::TriggerFailed { reason } => "trigger failed: "@ + reason@,
        Error::InvalidArgument(s) => "invalid argument: "@ + s@,
        Error::Browser(s) => "chromiumoxide error: "@ + s@,
    }
}

impl Error {
    /// A browser-side failure, described by `msg`.
    pub fn browser(msg: String) -> (e: Self)
        ensures
            e == Error::Browser(msg),
    {
        Error::Browser(msg)
    }

    pub fn trigger_failed(reason: String) -> (e: Self)
        ensures
            e == (Error::TriggerFailed { reason }),
    {
        Error::TriggerFailed { reason }
    }

    pub fn invalid(msg: String) -> (e: Self)
        ensures
            e == Error::InvalidArgument(msg),
    {
        Error::InvalidArgument(msg)
    }

    /// The error's message, as shown to users.
    pub fn message(&self) -> (s: String)
        ensures
            s@ == error_text(*self),
    {
        let (head, body) = match self {
            Error::SessionNotFound(s) => ("session not found: ", s),
            Error::EpisodeNotFound(s) => ("episode not found: ", s),
            Error::FrameNotFound(s) => ("frame not found: ", s),
            Error::NoActiveEpisode(s) => ("no active episode on session ", s),
            Error::TriggerFailed { reason } => ("trigger failed: ", reason),
            Error::InvalidArgument(s) => ("invalid argument: ", s),
            Error::Browser(s) => ("chromiumoxide error: ", s),
        };
        let mut out = String::from_str(head);
        out.append(body.as_str());
        out
    }
}

} // verus!
