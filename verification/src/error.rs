//! The error kinds a command can surface.  The host shell turns them into the
//! textual error channel of the command surface via [`CmdError::message`].

use vstd::prelude::*;

verus! {

#[derive(Debug, PartialEq)]
pub enum CmdError {
    /// The database could not be opened or bootstrapped; fatal at startup.
    SchemaError(String),
    /// A by-id, by-code or by-filename lookup found nothing.
    NotFound,
    /// A login password did not match the stored hash.
    InvalidCredentials,
    /// An update command received a record without an identifier.
    MissingIdentifier,
    /// Any other storage failure, with the underlying message.
    StorageError(String),
}

impl CmdError {
    /// The message of this error, as a spec-level character sequence.
    pub open spec fn spec_message(&self) -> Seq<char> {
        match self {
            CmdError::SchemaError(m) => m@,
            CmdError::NotFound => "Not found"@,
            CmdError::InvalidCredentials => "Invalid credentials"@,
            CmdError::MissingIdentifier => "ID is required"@,
            CmdError::StorageError(m) => m@,
        }
    }

    /// The textual form of the error, as the command surface reports it.
    pub fn message(&self) -> (r: String)
        ensures
            r@ == self.spec_message(),
    {
        match self {
            CmdError::SchemaError(m) => m.clone(),
            CmdError::NotFound => String::from_str("Not found"),
            CmdError::InvalidCredentials => String::from_str("Invalid credentials"),
            CmdError::MissingIdentifier => String::from_str("ID is required"),
            CmdError::StorageError(m) => m.clone(),
        }
    }
}

impl Clone for CmdError {
    fn clone(&self) -> (r: Self)
        ensures
            r == *self,
    {
        match self {
            CmdError::SchemaError(m) => CmdError::SchemaError(m.clone()),
            CmdError::NotFound => CmdError::NotFound,
            CmdError::InvalidCredentials => CmdError::InvalidCredentials,
            CmdError::MissingIdentifier => CmdError::MissingIdentifier,
            CmdError::StorageError(m) => CmdError::StorageError(m.clone()),
        }
    }
}

} // verus!
