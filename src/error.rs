//! Errors of account decoding.
use vstd::prelude::*;

verus! {

/// Why a byte buffer was not accepted as an account.
#[derive(Clone, Copy, Debug, PartialEq, Eq, Structural)]
pub enum PythError {
    /// The buffer is shorter than the account layout, or its magic number
    /// is wrong.
    InvalidAccountData,
    /// The account's layout version is not the supported one.
    BadVersionNumber,
    /// The account is of another kind than the one asked for.
    WrongAccountType,
}

impl PythError {
    /// The number under which this error is reported to the host runtime.
    pub open spec fn spec_code(self) -> u32 {
        match self {
            PythError::InvalidAccountData => 0,
            PythError::BadVersionNumber => 1,
            PythError::WrongAccountType => 2,
        }
    }

    /// The number under which this error is reported to the host runtime:
    /// its position in the declaration, from zero.
    pub fn code(&self) -> (r: u32)
        ensures
            r == self.spec_code(),
    {
        match self {
            PythError::InvalidAccountData => 0,
            PythError::BadVersionNumber => 1,
            PythError::WrongAccountType => 2,
        }
    }
}

} // verus!
