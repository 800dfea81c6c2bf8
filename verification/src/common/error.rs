//! Errors of the shared helpers.

use vstd::prelude::*;

use crate::text::{cat2, cat4};

verus! {

/// An error of a shared helper.
#[derive(Debug)]
pub enum Error {
    /// An IP address or CIDR text could not be read.
    InvalidIp {
        /// The offending input.
        input: String,
        /// Why it was rejected.
        reason: String,
    },
    /// A configuration value failed validation.
    Config(String),
    /// A kernel setting could not be read or written.
    Sysctl {
        /// The key involved.
        key: String,
        /// What the operating system reported.
        source: String,
    },
}

/// The quoted form in which a string is shown for debugging.
pub uninterp spec fn quoted_of(s: Seq<char>) -> Seq<char>;

/// `format!` with `{:?}` on a string: the quoted form, named by `quoted_of`. What it escapes
/// and how is left unsaid.
#[verifier::external_body]
pub(crate) fn quoted(s: &str) -> (r: String)
    ensures
        r@ == quoted_of(s@),
{
    format!("{:?}", s)
}

impl Error {
    /// The text shown to a user.
    pub open spec fn text(self) -> Seq<char> {
        match self {
            Error::InvalidIp { input, reason } => "invalid IP/CIDR "@ + quoted_of(input@) + ": "@
                + reason@,
            Error::Config(m) => "invalid configuration: "@ + m@,
            Error::Sysctl { key, source } => "sysctl error for "@ + quoted_of(key@) + ": "@
                + source@,
        }
    }

    /// The text shown to a user.
    pub fn message(&self) -> (r: String)
        ensures
            r@ == self.text(),
    {
        match self {
            Error::InvalidIp { input, reason } => cat4(
                "invalid IP/CIDR ",
                quoted(input.as_str()).as_str(),
                ": ",
                reason.as_str(),
            ),
            Error::Config(m) => cat2("invalid configuration: ", m.as_str()),
            Error::Sysctl { key, source } => cat4(
                "sysctl error for ",
                quoted(key.as_str()).as_str(),
                ": ",
                source.as_str(),
            ),
        }
    }
}

} // verus!
