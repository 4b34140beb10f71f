//! The settings of the server.

use vstd::prelude::*;
use vstd::string::StringExecFns;

verus! {

/// The settings of the server.
#[derive(Debug)]
pub struct Configs {
    songs_directory: String,
}

impl Configs {
    /// The directory that holds the songs.
    pub closed spec fn songs_directory_spec(&self) -> Seq<char> {
        self.songs_directory@
    }

    /// Settings with the songs in `songs_directory`.
    pub fn new(songs_directory: String) -> (configs: Configs)
        ensures
            configs.songs_directory_spec() == songs_directory@,
    {
        Configs { songs_directory }
    }

    /// The settings to run with: those that were stored, or the default ones
    /// where none could be read. The flag says whether the settings are to be
    /// stored: it is set where the default ones were taken.
    pub fn open(stored: Option<Configs>, default_configs: Configs) -> (opened: (Configs, bool))
        ensures
            match stored {
                Some(configs) => opened == (configs, false),
                None => opened == (default_configs, true),
            },
    {
        match stored {
            Some(configs) => (configs, false),
            None => (default_configs, true),
        }
    }

    /// The file that holds the settings.
    pub fn path() -> (path: String)
        ensures
            path@ == "configs.json"@,
    {
        String::from_str("configs.json")
    }

    /// The directory that holds the songs.
    pub fn songs_directory(&self) -> (directory: &str)
        ensures
            directory@ == self.songs_directory_spec(),
    {
        self.songs_directory.as_str()
    }
}

} // verus!
