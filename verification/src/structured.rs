//! The kinds of structured logging output.

use vstd::prelude::*;
use vstd::string::StringExecFns;

verus! {

/// Sets the kind of structured logging output you want.
#[derive(Clone, Copy, Debug, PartialEq, Eq, Structural)]
pub enum Output {
    /// Outputs everything as json.
    Json,
    /// Regular logging (default).
    Log,
    /// More compact version of above.
    Compact,
    /// No logging to console; its name is `None`.
    Quiet,
}

pub type ParseError = String;

/// The output kind that `name` spells, if it spells one.
pub open spec fn output_named(name: Seq<char>) -> Option<Output> {
    if name == "Json"@ {
        Some(Output::Json)
    } else if name == "Log"@ {
        Some(Output::Log)
    } else if name == "Compact"@ {
        Some(Output::Compact)
    } else if name == "None"@ {
        Some(Output::Quiet)
    } else {
        None
    }
}

impl Output {
    /// Reads an output kind from its name.
    pub fn parse(day: &str) -> (res: Result<Output, ParseError>)
        ensures
            res.ok() == output_named(day@),
            res matches Err(e) ==> e@ == "Could not parse log output type"@,
    {
        let name = day.to_owned();
        if name == String::from_str("Json") {
            Ok(Output::Json)
        } else if name == String::from_str("Log") {
            Ok(Output::Log)
        } else if name == String::from_str("Compact") {
            Ok(Output::Compact)
        } else if name == String::from_str("None") {
            Ok(Output::Quiet)
        } else {
            Err(String::from_str("Could not parse log output type"))
        }
    }
}

impl std::str::FromStr for Output {
    type Err = ParseError;

    fn from_str(day: &str) -> (res: Result<Self, Self::Err>)
        ensures
            res.ok() == output_named(day@),
    {
        Output::parse(day)
    }
}

} // verus!
