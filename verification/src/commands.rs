//! The chat commands that players can give.

use vstd::prelude::*;
use vstd::string::StringExecFns;
use crate::text::{remove, split_once, split_once_spec, without};

verus! {

/// A chat command, read.
#[derive(Debug)]
pub enum Command {
    /// `filter-songs <keywords>`: show only the songs that match.
    FilterSongs { keywords: String },
    /// `reset-filter`: show all songs.
    ResetFilter,
    /// Anything else, by its name.
    Unknown { name: String },
}

/// The name of a command: what stands before its first space, or all of it.
pub open spec fn command_name(command: Seq<char>) -> Seq<char> {
    match split_once_spec(command, " "@) {
        Some((name, _)) => name,
        None => command,
    }
}

/// The arguments of a command: what follows its first space, without any
/// quotation marks.
pub open spec fn command_args(command: Seq<char>) -> Seq<char> {
    match split_once_spec(command, " "@) {
        Some((_, args)) => without(args, "\""@),
        None => Seq::empty(),
    }
}

/// Reads a chat command.
pub fn parse_command(command: &str) -> (parsed: Command)
    ensures
        match parsed {
            Command::FilterSongs { keywords } => command_name(command@) == "filter-songs"@
                && keywords@ == command_args(command@),
            Command::ResetFilter => command_name(command@) != "filter-songs"@ && command_name(
                command@,
            ) == "reset-filter"@,
            Command::Unknown { name } => command_name(command@) != "filter-songs"@
                && command_name(command@) != "reset-filter"@ && name@ == command_name(command@),
        },
{
    let (name, args) = match split_once(command, " ") {
        Some((name, args)) => (name, remove(args.as_str(), "\"")),
        None => (String::from_str(command), String::new()),
    };
    if name == String::from_str("filter-songs") {
        Command::FilterSongs { keywords: args }
    } else if name == String::from_str("reset-filter") {
        Command::ResetFilter
    } else {
        Command::Unknown { name }
    }
}

} // verus!
