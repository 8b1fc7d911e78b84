//! The errors that registry operations report.

use vstd::prelude::*;

verus! {

/// Why an operation was refused. A refused operation changes nothing.
#[derive(Debug, Clone, Copy, PartialEq, Eq, Structural)]
pub enum ContractError {
    /// The caller is neither the owner nor an operator.
    Unauthorized,
    /// The identity cannot be stored or is not the one the operation needs:
    /// it is not strict, its version is not a semantic version, it or the
    /// code id is bound already or not bound yet, or it is too long for the
    /// fee table to keep the fees that the operation brings.
    InvalidIdentity,
    /// Nothing is stored under what the query names.
    NotFound,
    /// The host does not accept the address that was to be the publisher.
    InvalidAddress,
}

impl ContractError {
    /// The text of the message that describes the error.
    pub open spec fn message_text(self) -> Seq<char> {
        match self {
            ContractError::Unauthorized => "unauthorized"@,
            ContractError::InvalidIdentity => "invalid ADO version"@,
            ContractError::NotFound => "not found"@,
            ContractError::InvalidAddress => "invalid address"@,
        }
    }

    /// A message that describes the error.
    pub fn message(&self) -> (r: String)
        ensures
            r@ == self.message_text(),
    {
        match self {
            ContractError::Unauthorized => "unauthorized".to_owned(),
            ContractError::InvalidIdentity => "invalid ADO version".to_owned(),
            ContractError::NotFound => "not found".to_owned(),
            ContractError::InvalidAddress => "invalid address".to_owned(),
        }
    }
}

} // verus!
