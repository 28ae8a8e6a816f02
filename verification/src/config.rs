//! From the sections of a configuration to item specifications.

use vstd::prelude::*;
use vstd::string::*;
use crate::line::texts;
use crate::runner::Policy;

verus! {

/// A value of a configuration section, as far as an item is read from it.
#[derive(Debug)]
pub enum FieldValue {
    /// A string.
    Text(String),
    /// A whole number.
    Integer(i64),
    /// A fractional number of seconds, given in whole milliseconds.
    Fraction { millis: u64 },
    /// A boolean.
    Boolean(bool),
    /// A list, of whatever.
    List,
    /// A value of any other type.
    Other,
}

/// The fields of one item's section. A field that the section lacks is
/// `None`.
#[derive(Debug)]
pub struct Section {
    pub path: Option<FieldValue>,
    pub is_static: Option<FieldValue>,
    pub reload: Option<FieldValue>,
    pub shell: Option<FieldValue>,
}

/// What the configuration holds under an item's name.
#[derive(Debug)]
pub enum Lookup {
    /// Nothing.
    Absent,
    /// Something that is no section.
    Invalid,
    /// A section.
    Found(Section),
}

/// One name of the order list and what the configuration holds for it.
#[derive(Debug)]
pub struct Entry {
    pub name: String,
    pub lookup: Lookup,
}

/// Why an item cannot be run at all.
#[derive(Clone, Copy, Debug, PartialEq, Eq, Structural)]
pub enum ConfigError {
    /// What stands under the item's name is no section.
    MissingSection,
    /// The command is given as a list, which is no longer accepted.
    DeprecatedPathList,
    /// The command is no string.
    InvalidPath,
    /// The section has no command.
    MissingPath,
    /// The reload interval is no number.
    InvalidReload,
    /// The shell is no string.
    InvalidShell,
    /// The section names no shell and the environment has none.
    MissingShell,
}

/// One item, ready to run.
#[derive(Debug)]
pub struct ItemSpec {
    pub name: String,
    pub position: usize,
    pub command: String,
    pub shell: String,
    pub policy: Policy,
}

/// An item specification as contracts see it.
pub struct ItemSpecView {
    pub name: Seq<char>,
    pub position: int,
    pub command: Seq<char>,
    pub shell: Seq<char>,
    pub policy: Policy,
}

impl View for ItemSpec {
    type V = ItemSpecView;

    open spec fn view(&self) -> ItemSpecView {
        ItemSpecView {
            name: self.name@,
            position: self.position as int,
            command: self.command@,
            shell: self.shell@,
            policy: self.policy,
        }
    }
}

/// Whole seconds as milliseconds: nothing below zero, and no more than a
/// `u64` holds.
pub open spec fn seconds_to_millis(seconds: i64) -> u64 {
    if seconds <= 0 {
        0
    } else if seconds * 1000 > u64::MAX {
        u64::MAX
    } else {
        (seconds * 1000) as u64
    }
}

/// The command of a section: its `path`, which must be a string.
pub open spec fn command_of(section: Section) -> Result<Seq<char>, ConfigError> {
    match section.path {
        Some(FieldValue::Text(s)) => Ok(s@),
        Some(FieldValue::List) => Err(ConfigError::DeprecatedPathList),
        Some(_) => Err(ConfigError::InvalidPath),
        None => Err(ConfigError::MissingPath),
    }
}

/// The shell of a section: its own, which must be a string, or else the
/// one of the environment.
pub open spec fn shell_of(section: Section, env_shell: Option<String>) -> Result<
    Seq<char>,
    ConfigError,
> {
    match section.shell {
        Some(FieldValue::Text(s)) => Ok(s@),
        Some(_) => Err(ConfigError::InvalidShell),
        None => match env_shell {
            Some(s) => Ok(s@),
            None => Err(ConfigError::MissingShell),
        },
    }
}

/// The reload interval of a section in milliseconds, if it has one: its
/// `reload`, which must be a number and is taken as seconds.
pub open spec fn interval_of(section: Section) -> Result<Option<u64>, ConfigError> {
    match section.reload {
        Some(FieldValue::Integer(seconds)) => Ok(Some(seconds_to_millis(seconds))),
        Some(FieldValue::Fraction { millis }) => Ok(Some(millis)),
        Some(_) => Err(ConfigError::InvalidReload),
        None => Ok(None),
    }
}

/// The policy of a section: static where `static` is true; else periodic
/// where it has a reload interval; else streaming. A `reload` that is no
/// number is a fault, whatever `static` says.
pub open spec fn policy_of(section: Section) -> Result<Policy, ConfigError> {
    match interval_of(section) {
        Err(e) => Err(e),
        Ok(interval) => Ok(
            if section.is_static == Some(FieldValue::Boolean(true)) {
                Policy::Static
            } else {
                match interval {
                    Some(millis) => Policy::Periodic { millis },
                    None => Policy::Streaming,
                }
            },
        ),
    }
}

/// The item that a section gives, or why it gives none. The fields are
/// read in the order command, reload interval, shell, and the first fault
/// found is the one reported.
pub open spec fn resolution(
    name: Seq<char>,
    position: usize,
    section: Section,
    env_shell: Option<String>,
) -> Result<ItemSpecView, ConfigError> {
    match command_of(section) {
        Err(e) => Err(e),
        Ok(command) => match policy_of(section) {
            Err(e) => Err(e),
            Ok(policy) => match shell_of(section, env_shell) {
                Err(e) => Err(e),
                Ok(shell) => Ok(
                    ItemSpecView { name, position: position as int, command, shell, policy },
                ),
            },
        },
    }
}

/// The arguments with which the shell of an item is called: `-c`, and the
/// command as it is, in one piece.
pub open spec fn invocation(command: Seq<char>) -> Seq<Seq<char>> {
    seq!["-c"@, command]
}

/// Converts whole seconds to milliseconds.
pub fn millis_of_seconds(seconds: i64) -> (millis: u64)
    ensures
        millis == seconds_to_millis(seconds),
{
    if seconds <= 0 {
        0
    } else if seconds as u64 > u64::MAX / 1000 {
        u64::MAX
    } else {
        seconds as u64 * 1000
    }
}

/// Reads the policy of a section, or finds its reload interval to be no
/// number.
pub fn read_policy(section: &Section) -> (res: Result<Policy, ConfigError>)
    ensures
        res == policy_of(*section),
{
    let is_static: bool = match &section.is_static {
        Some(FieldValue::Boolean(b)) => *b,
        _ => false,
    };
    let millis: Option<u64> = match &section.reload {
        Some(FieldValue::Integer(seconds)) => Some(millis_of_seconds(*seconds)),
        Some(FieldValue::Fraction { millis }) => Some(*millis),
        Some(_) => {
            return Err(ConfigError::InvalidReload);
        },
        None => None,
    };
    if is_static {
        Ok(Policy::Static)
    } else {
        match millis {
            Some(millis) => Ok(Policy::Periodic { millis }),
            None => Ok(Policy::Streaming),
        }
    }
}

impl ItemSpec {
    /// The arguments with which the item's shell is called.
    pub fn arguments(&self) -> (args: Vec<String>)
        ensures
            texts(args@) == invocation(self@.command),
            args@.len() == 2,
            args@[0]@ == "-c"@,
            args@[1]@ == self.command@,
    {
        let mut args: Vec<String> = Vec::new();
        args.push(String::from_str("-c"));
        args.push(self.command.clone());
        assert(texts(args@) =~= invocation(self@.command));
        args
    }
}

/// Builds the specification of the item `name` at `position` from its
/// section, with `env_shell` as the shell of the environment.
pub fn resolve_item(
    name: &str,
    position: usize,
    section: &Section,
    env_shell: &Option<String>,
) -> (res: Result<ItemSpec, ConfigError>)
    ensures
        match res {
            Ok(item) => resolution(name@, position, *section, *env_shell) == Ok::<
                ItemSpecView,
                ConfigError,
            >(item@),
            Err(e) => resolution(name@, position, *section, *env_shell) == Err::<
                ItemSpecView,
                ConfigError,
            >(e),
        },
{
    let command: String = match &section.path {
        Some(FieldValue::Text(s)) => s.clone(),
        Some(FieldValue::List) => {
            return Err(ConfigError::DeprecatedPathList);
        },
        Some(_) => {
            return Err(ConfigError::InvalidPath);
        },
        None => {
            return Err(ConfigError::MissingPath);
        },
    };
    let policy = match read_policy(section) {
        Ok(policy) => policy,
        Err(e) => {
            return Err(e);
        },
    };
    let shell: String = match &section.shell {
        Some(FieldValue::Text(s)) => s.clone(),
        Some(_) => {
            return Err(ConfigError::InvalidShell);
        },
        None => match env_shell {
            Some(s) => s.clone(),
            None => {
                return Err(ConfigError::MissingShell);
            },
        },
    };
    Ok(ItemSpec { name: String::from_str(name), position, command, shell, policy })
}

} // verus!
