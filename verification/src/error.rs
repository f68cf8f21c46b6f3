//! What can go wrong while a command is resolved or the configuration is
//! loaded.

use crate::links::ParseError;
use vstd::prelude::*;
use vstd::string::StringExecFns;

verus! {

/// A failure. None of them ends a session: a failed command resolves to its
/// error, and nothing is sent to the chat room for it.
#[derive(Debug, Clone, PartialEq, Eq)]
pub enum Error {
    /// The command did not finish within the time allowed.
    TimedOut,
    /// The source of the command has no key configured.
    Unconfigured,
    /// No token is configured for the social network.
    NotConfigured,
    /// The social network asked to wait before the next request.
    RateLimited,
    /// The kind of title to search for is not known.
    UnknownType,
    /// The server answered with a status that is no success; its text.
    Status(String),
    /// The page was served from an address that is not globally routable.
    RestrictedIp,
    /// The page is no text; its media type.
    IgnoredMime(String),
    /// The page has no title.
    NoTitle,
    /// The computational engine gave no pod with an answer.
    NoResponsePod,
    /// The video platform knows no such video.
    NoItems,
    /// The configuration file is too large.
    ConfigTooLarge,
    /// A text is no address.
    Url(ParseError),
    /// A failure that a source reported in its own words.
    Other(String),
}

/// The message of an error as contracts see it.
pub open spec fn message_of(e: Error) -> Seq<char> {
    match e {
        Error::TimedOut => "Timed out"@,
        Error::Unconfigured => "Unconfigured"@,
        Error::NotConfigured => "Not configured"@,
        Error::RateLimited => "Rate limited"@,
        Error::UnknownType => "Unknown type"@,
        Error::Status(status) => "Status "@ + status@,
        Error::RestrictedIp => "Restricted IP"@,
        Error::IgnoredMime(mime) => "Ignoring mime type "@ + mime@,
        Error::NoTitle => "No title"@,
        Error::NoResponsePod => "No response pod"@,
        Error::NoItems => "No items in response"@,
        Error::ConfigTooLarge => "excessively large configuration"@,
        Error::Url(ParseError::RelativeUrlWithoutBase) => "relative URL without a base"@,
        Error::Url(ParseError::Other) => "invalid URL"@,
        Error::Other(text) => text@,
    }
}

impl Error {
    /// The message of the error.
    pub fn message(&self) -> (r: String)
        ensures
            r@ == message_of(*self),
    {
        match self {
            Error::TimedOut => String::from_str("Timed out"),
            Error::Unconfigured => String::from_str("Unconfigured"),
            Error::NotConfigured => String::from_str("Not configured"),
            Error::RateLimited => String::from_str("Rate limited"),
            Error::UnknownType => String::from_str("Unknown type"),
            Error::Status(status) => String::from_str("Status ").concat(status.as_str()),
            Error::RestrictedIp => String::from_str("Restricted IP"),
            Error::IgnoredMime(mime) => String::from_str("Ignoring mime type ").concat(
                mime.as_str(),
            ),
            Error::NoTitle => String::from_str("No title"),
            Error::NoResponsePod => String::from_str("No response pod"),
            Error::NoItems => String::from_str("No items in response"),
            Error::ConfigTooLarge => String::from_str("excessively large configuration"),
            Error::Url(ParseError::RelativeUrlWithoutBase) => String::from_str(
                "relative URL without a base",
            ),
            Error::Url(ParseError::Other) => String::from_str("invalid URL"),
            Error::Other(text) => text.clone(),
        }
    }
}

} // verus!
