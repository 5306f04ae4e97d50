//! The errors that the library and its callers report.

use crate::text::{chain, decimal, to_decimal};
use vstd::prelude::*;

verus! {

/// What can go wrong.
#[derive(Clone, Debug, PartialEq, Eq)]
pub enum RiotError {
    /// No credential was given to the client.
    MissingCredential,
    /// The credential holds a character that no header can carry.
    InvalidCredential,
    /// The upstream answered with this status, neither a success nor 429, to this URL.
    HttpStatus(u16, String),
    /// The upstream answered 429 to this URL again after the one retry.
    TooManyRequests(String),
    /// The request did not get through; the cause.
    Transport(String),
    /// A body is not JSON of the expected shape; the cause, and the URL or path it came from.
    Decode(String, String),
    /// The crawl has no seed, or none entered the frontier.
    EmptySeed,
    /// The extractor knows no such level.
    UnsupportedLevel(String),
    /// The preparer knows no such variant.
    UnsupportedVariant(String),
    /// A file could not be read or written; the cause, and the path.
    Io(String, String),
    /// A variant of the preparer lacks an input; the option that names it, and the variant.
    MissingInput(String, String),
}

impl RiotError {
    /// The line that reports this error.
    pub open spec fn text(self) -> Seq<char> {
        match self {
            RiotError::MissingCredential => "RIOT_API_KEY is not set"@,
            RiotError::InvalidCredential => "RIOT_API_KEY cannot be sent in a header"@,
            RiotError::HttpStatus(status, url) => "Request to "@ + url@ + " failed with status "@
                + decimal(status as nat),
            RiotError::TooManyRequests(url) => "Too many requests for URL "@ + url@,
            RiotError::Transport(cause) => "Request failed: "@ + cause@,
            RiotError::Decode(cause, origin) => "Unexpected JSON in "@ + origin@ + ": "@ + cause@,
            RiotError::EmptySeed => "No seeds enqueued after applying filters"@,
            RiotError::UnsupportedLevel(level) => "Unsupported level '"@ + level@
                + "'. Supported levels: player, team."@,
            RiotError::UnsupportedVariant(variant) => "Unknown variant: "@ + variant@,
            RiotError::Io(cause, path) => "Cannot access "@ + path@ + ": "@ + cause@,
            RiotError::MissingInput(option, variant) => option@ + " is required for "@ + variant@,
        }
    }

    /// Writes the line that reports this error.
    pub fn message(&self) -> (out: String)
        ensures
            out@ == self.text(),
    {
        match self {
            RiotError::MissingCredential => "RIOT_API_KEY is not set".to_owned(),
            RiotError::InvalidCredential => "RIOT_API_KEY cannot be sent in a header".to_owned(),
            RiotError::HttpStatus(status, url) => {
                let head = chain("Request to ", url.as_str());
                let mid = chain(head.as_str(), " failed with status ");
                chain(mid.as_str(), to_decimal(*status as u64).as_str())
            },
            RiotError::TooManyRequests(url) => chain("Too many requests for URL ", url.as_str()),
            RiotError::Transport(cause) => chain("Request failed: ", cause.as_str()),
            RiotError::Decode(cause, origin) => {
                let head = chain("Unexpected JSON in ", origin.as_str());
                let mid = chain(head.as_str(), ": ");
                chain(mid.as_str(), cause.as_str())
            },
            RiotError::EmptySeed => "No seeds enqueued after applying filters".to_owned(),
            RiotError::UnsupportedLevel(level) => {
                let head = chain("Unsupported level '", level.as_str());
                chain(head.as_str(), "'. Supported levels: player, team.")
            },
            RiotError::UnsupportedVariant(variant) => chain("Unknown variant: ", variant.as_str()),
            RiotError::Io(cause, path) => {
                let head = chain("Cannot access ", path.as_str());
                let mid = chain(head.as_str(), ": ");
                chain(mid.as_str(), cause.as_str())
            },
            RiotError::MissingInput(option, variant) => {
                let head = chain(option.as_str(), " is required for ");
                chain(head.as_str(), variant.as_str())
            },
        }
    }
}

} // verus!
