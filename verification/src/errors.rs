//! The error taxonomy of the tool.
//!
//! Every error aborts the current run; none is retried or recovered from.
//! The shell around the library maps each to a non-zero process exit.

use vstd::prelude::*;

verus! {

/// Everything that can go wrong in one run of the tool.
#[derive(Debug)]
pub enum BrightnessError {
    /// No candidate backlight interface directory exists.
    NoInterfaceFound,
    /// A required file was missing, unreadable, or held text that does not
    /// parse as an in-range unsigned integer.
    ReadError,
    /// The brightness file could not be written back.
    WriteError,
    /// The command line held a number of arguments other than the accepted
    /// shapes.
    ArgumentCountError,
    /// The action keyword was none of the known ones; carries the token.
    UnknownActionError(String),
    /// The amount argument did not parse as a decimal number.
    AmountParseError,
}

impl BrightnessError {
    /// A short diagnostic line for this error.
    pub fn message(&self) -> (r: String)
        ensures
            r@.len() > 0,
    {
        let text: &str = match self {
            BrightnessError::NoInterfaceFound => "couldn't find suitable interface",
            BrightnessError::ReadError => "couldn't read backlight state",
            BrightnessError::WriteError => "couldn't write brightness",
            BrightnessError::ArgumentCountError => "Invalid number of arguments",
            BrightnessError::UnknownActionError(_) => "Unknown action",
            BrightnessError::AmountParseError => "couldn't parse amount",
        };
        proof {
            reveal_strlit("couldn't find suitable interface");
            reveal_strlit("couldn't read backlight state");
            reveal_strlit("couldn't write brightness");
            reveal_strlit("Invalid number of arguments");
            reveal_strlit("Unknown action");
            reveal_strlit("couldn't parse amount");
        }
        String::from_str(text)
    }
}

} // verus!
