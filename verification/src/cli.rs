use vstd::prelude::*;

verus! {

/// What a command invocation needs around it: the directory it works in,
/// the environment variables it may read, and the release it announces.
pub struct Context {
    pub context_path: String,
    pub environment: Vec<(String, String)>,
    pub release_version: Option<String>,
}

/// The command invoked by the user.
pub enum Command {
    /// Initialize a configuration in the current (empty) directory.
    Initialize { with_metadata: bool },
    /// Update the configuration by introspecting the database.
    Update,
    /// Upgrade the configuration to the latest version, from one directory
    /// into another.
    Upgrade { dir_from: String, dir_to: String },
}

/// What can go wrong beyond plain reading and writing.
#[derive(Debug, Clone, Copy, PartialEq, Eq, Structural)]
pub enum Error {
    DirectoryIsNotEmpty,
}

impl Error {
    /// The text shown for this failure.
    pub fn message(&self) -> (r: String)
        ensures
            r@ == "directory is not empty"@,
    {
        "directory is not empty".to_owned()
    }
}

} // verus!
