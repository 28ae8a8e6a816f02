//! The texts of the diagnostics.

use vstd::prelude::*;
use vstd::string::*;
use crate::config::ConfigError;

verus! {

/// What is said of the item `name` that cannot be run because of `error`.
pub open spec fn description(error: ConfigError, name: Seq<char>) -> Seq<char> {
    match error {
        ConfigError::MissingSection => "Failed to find valid section for "@ + name,
        ConfigError::DeprecatedPathList => "Invalid path found for "@ + name
            + ": arrays are deprecated - use a string instead"@,
        ConfigError::InvalidPath => "Invalid path found for "@ + name,
        ConfigError::MissingPath => "No path found for "@ + name,
        ConfigError::InvalidReload => "Invalid reload found for "@ + name,
        ConfigError::InvalidShell => "Invalid shell found for "@ + name,
        ConfigError::MissingShell =>
            "Could not find your system's shell. Make sure the $SHELL variable is set."@,
    }
}

/// The diagnostic for the item `name` that cannot be run because of
/// `error`.
pub fn describe(error: ConfigError, name: &str) -> (text: String)
    ensures
        text@ == description(error, name@),
{
    match error {
        ConfigError::MissingSection => String::from_str("Failed to find valid section for ").concat(
            name,
        ),
        ConfigError::DeprecatedPathList => String::from_str("Invalid path found for ").concat(
            name,
        ).concat(": arrays are deprecated - use a string instead"),
        ConfigError::InvalidPath => String::from_str("Invalid path found for ").concat(name),
        ConfigError::MissingPath => String::from_str("No path found for ").concat(name),
        ConfigError::InvalidReload => String::from_str("Invalid reload found for ").concat(name),
        ConfigError::InvalidShell => String::from_str("Invalid shell found for ").concat(name),
        ConfigError::MissingShell => String::from_str(
            "Could not find your system's shell. Make sure the $SHELL variable is set.",
        ),
    }
}

/// The diagnostic for a name of the order list for which the
/// configuration holds nothing.
pub fn missing_notice(name: &str) -> (text: String)
    ensures
        text@ == "No "@ + name@ + " found"@,
{
    String::from_str("No ").concat(name).concat(" found")
}

/// The diagnostic for a command that could not be launched.
pub fn launch_failure(command: &str) -> (text: String)
    ensures
        text@ == "Failed to run "@ + command@,
{
    String::from_str("Failed to run ").concat(command)
}

} // verus!
