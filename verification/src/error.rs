//! Configuration errors: surfaced when building a parser or context
//! from options, fatal to that construction and never silently
//! defaulted.

use vstd::prelude::*;

verus! {

/// An error raised while applying configuration options.
#[derive(Debug)]
pub enum Error {
    MissingRequiredOption(String),
    InvalidValue(String, String, String),
    UnknownOption(String),
    Verbatim(String),
}

impl Error {
    pub fn missing_required_option(option: String) -> (e: Error)
        ensures
            e == Error::MissingRequiredOption(option),
    {
        Error::MissingRequiredOption(option)
    }

    pub fn invalid_value(option_name: String, value: String, expected_value: String) -> (e: Error)
        ensures
            e == Error::InvalidValue(option_name, value, expected_value),
    {
        Error::InvalidValue(option_name, value, expected_value)
    }

    pub fn verbatim_error(error_msg: String) -> (e: Error)
        ensures
            e == Error::Verbatim(error_msg),
    {
        Error::Verbatim(error_msg)
    }

    pub fn unknown_option(option_name: String) -> (e: Error)
        ensures
            e == Error::UnknownOption(option_name),
    {
        Error::UnknownOption(option_name)
    }
}

} // verus!
