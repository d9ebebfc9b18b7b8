//! What can go wrong.

use crate::text;
use vstd::prelude::*;

verus! {

/// What can go wrong. Errors of the system and of other crates come as their
/// messages.
#[derive(Debug)]
pub enum Error {
    UnsupportedTerminal(String),
    ChromeNotFound,
    ProfileLocked(String),
    BrowserDisconnected,
    Io(String),
    Other(String),
}

impl Error {
    /// The message of an error.
    pub open spec fn text(&self) -> Seq<char> {
        match *self {
            Error::UnsupportedTerminal(why) => "terminal is not Kitty-graphics capable: "@ + why@,
            Error::ChromeNotFound =>
                "chrome binary not found; set $WEBCAT_CHROME or install Google Chrome"@,
            Error::ProfileLocked(path) =>
                "profile is locked by another webcat/chrome instance: "@ + path@,
            Error::BrowserDisconnected => "browser disconnected"@,
            Error::Io(e) => "io error: "@ + e@,
            Error::Other(e) => e@,
        }
    }

    /// The message of an error.
    pub fn message(&self) -> (r: String)
        ensures
            r@ == self.text(),
    {
        match self {
            Error::UnsupportedTerminal(why) => {
                text::concat("terminal is not Kitty-graphics capable: ", why.as_str())
            },
            Error::ChromeNotFound => {
                "chrome binary not found; set $WEBCAT_CHROME or install Google Chrome".to_string()
            },
            Error::ProfileLocked(path) => {
                text::concat("profile is locked by another webcat/chrome instance: ", path.as_str())
            },
            Error::BrowserDisconnected => "browser disconnected".to_string(),
            Error::Io(e) => text::concat("io error: ", e.as_str()),
            Error::Other(e) => e.clone(),
        }
    }
}

} // verus!
