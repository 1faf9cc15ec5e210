//! Errors of the typed environment-variable store.

use vstd::prelude::*;

verus! {

/// Why an operation on an environment variable was refused.
#[derive(Debug, PartialEq, Eq, Structural)]
pub enum EnvErr {
    NotFound,
    DifferentType,
    CbFailed,
    AlreadyExist,
}

impl EnvErr {
    /// The sentence shown to the user for this error.
    pub open spec fn message(self) -> Seq<char> {
        match self {
            EnvErr::NotFound => "Environment variable not found."@,
            EnvErr::DifferentType => "Environment variable has different type."@,
            EnvErr::CbFailed => "Call back failed."@,
            EnvErr::AlreadyExist => "Environment variable already exist."@,
        }
    }

    /// Renders the error as text.
    pub fn to_string(&self) -> (text: String)
        ensures
            text@ == self.message(),
    {
        match self {
            EnvErr::NotFound => "Environment variable not found.".to_owned(),
            EnvErr::DifferentType => "Environment variable has different type.".to_owned(),
            EnvErr::CbFailed => "Call back failed.".to_owned(),
            EnvErr::AlreadyExist => "Environment variable already exist.".to_owned(),
        }
    }
}

} // verus!
