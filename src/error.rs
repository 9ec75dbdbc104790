//! The errors that addons and the dispatch registry report.

use vstd::prelude::*;

verus! {

/// Error type shared by the registry, the addons and their commands.
#[derive(Debug, PartialEq, Eq)]
pub enum MyToolsError {
    /// The first argument names no enabled addon.
    AddonNotFound(String),
    /// The addon's arguments match none of its commands.
    InvalidCommand(String),
    /// A command was recognised but one of its arguments is malformed.
    ParseCommandError(String),
    /// A command failed while running.
    ExecutionCommandError(String),
}

impl MyToolsError {
    /// The one-line text shown to the user for this error.
    pub open spec fn text(&self) -> Seq<char> {
        match self {
            MyToolsError::AddonNotFound(s) => "Unknown addon: "@ + s@,
            MyToolsError::InvalidCommand(s) => "Invalid command: "@ + s@,
            MyToolsError::ParseCommandError(s) => "Error while parsing command: "@ + s@,
            MyToolsError::ExecutionCommandError(s) => "Error while execution command: "@ + s@,
        }
    }

    /// Returns the one-line text shown to the user for this error.
    pub fn message(&self) -> (r: String)
        ensures
            r@ == self.text(),
    {
        match self {
            MyToolsError::AddonNotFound(s) => String::from_str("Unknown addon: ").concat(s.as_str()),
            MyToolsError::InvalidCommand(s) => String::from_str("Invalid command: ").concat(
                s.as_str(),
            ),
            MyToolsError::ParseCommandError(s) => String::from_str(
                "Error while parsing command: ",
            ).concat(s.as_str()),
            MyToolsError::ExecutionCommandError(s) => String::from_str(
                "Error while execution command: ",
            ).concat(s.as_str()),
        }
    }
}

} // verus!
