//! What can end a build.

use vstd::prelude::*;
use vstd::string::StringExecFns;

verus! {

/// Why a build attempt failed. Each of these ends the attempt; none of them
/// ends the process that watches for changes.
#[derive(Clone, Debug, PartialEq, Eq)]
pub enum BuildError {
    /// A slide named in the configuration could not be read. Holds its path.
    Read(String),
    /// The style matter did not compile. Holds the compiler's message.
    Compile(String),
    /// A file could not be written. Holds its path.
    Write(String),
}

/// What introduces the message of each kind of failure.
pub open spec fn message_prefix(error: BuildError) -> Seq<char> {
    match error {
        BuildError::Read(_) => "Unable to read slide : "@,
        BuildError::Compile(_) => "Unable to compile style matter : "@,
        BuildError::Write(_) => "Could not write to file : "@,
    }
}

/// What a failure holds: a path or the compiler's message.
pub open spec fn message_detail(error: BuildError) -> Seq<char> {
    match error {
        BuildError::Read(path) => path@,
        BuildError::Compile(message) => message@,
        BuildError::Write(path) => path@,
    }
}

impl BuildError {
    /// The failure in words, for a log.
    pub fn message(&self) -> (text: String)
        ensures
            text@ == message_prefix(*self) + message_detail(*self),
    {
        match self {
            BuildError::Read(path) => String::from_str("Unable to read slide : ").concat(
                path.as_str(),
            ),
            BuildError::Compile(message) => String::from_str(
                "Unable to compile style matter : ",
            ).concat(message.as_str()),
            BuildError::Write(path) => String::from_str("Could not write to file : ").concat(
                path.as_str(),
            ),
        }
    }
}

} // verus!
