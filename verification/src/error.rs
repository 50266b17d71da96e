//! What can go wrong with a request for a calendar.
use crate::text::{decimal, push_decimal, push_signed_decimal, signed_decimal};
use vstd::prelude::*;

verus! {

/// A request that cannot be served.
#[derive(Debug, Clone, Copy, PartialEq, Eq, Structural)]
pub enum Error {
    /// The year is not within 1..=9999. Holds the year that was asked for.
    InvalidYear(i32),
    /// The month number is not within 1..=12. Holds the number that was asked
    /// for.
    InvalidMonth(u16),
    /// The offset of the local time zone could not be found, so the current
    /// date is not known.
    UnknownOffset,
}

impl Error {
    /// The message for the user.
    pub open spec fn message_text(self) -> Seq<char> {
        match self {
            Error::InvalidYear(year) => "year `"@ + signed_decimal(year as int)
                + "' is not in range 1..9999"@,
            Error::InvalidMonth(month) => decimal(month as nat)
                + " is not a month number (1..12)"@,
            Error::UnknownOffset => "failed to determine current timezone offset"@,
        }
    }

    /// The exit status by which a command-line program reports the error: 64,
    /// a usage error, for a wrong year or month, and 1 otherwise.
    pub open spec fn exit_status(self) -> int {
        match self {
            Error::InvalidYear(_) | Error::InvalidMonth(_) => 64,
            Error::UnknownOffset => 1,
        }
    }

    /// Writes the message for the user.
    pub fn message(&self) -> (text: String)
        ensures
            text@ == self.message_text(),
    {
        let mut text = String::new();
        match self {
            Error::InvalidYear(year) => {
                text.append("year `");
                push_signed_decimal(&mut text, *year);
                text.append("' is not in range 1..9999");
            },
            Error::InvalidMonth(month) => {
                push_decimal(&mut text, *month as u32);
                text.append(" is not a month number (1..12)");
            },
            Error::UnknownOffset => {
                text.append("failed to determine current timezone offset");
            },
        }
        assert(text@ =~= self.message_text());
        text
    }

    /// The exit status for the error.
    pub fn exit_code(&self) -> (code: i32)
        ensures
            code == self.exit_status(),
    {
        match self {
            Error::InvalidYear(_) | Error::InvalidMonth(_) => 64,
            Error::UnknownOffset => 1,
        }
    }
}

} // verus!
