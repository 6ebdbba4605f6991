use vstd::prelude::*;

verus! {

/// Errors of the fungible ledger.
#[derive(Debug, Clone, PartialEq, Eq)]
pub enum PSP22Error {
    /// A condition of a particular ledger (for instance the supply ceiling).
    Custom(String),
    InsufficientBalance,
    InsufficientAllowance,
}

/// Errors of the non-fungible ledger.
#[derive(Debug, Clone, PartialEq, Eq)]
pub enum PSP34Error {
    /// A condition of a particular ledger (for instance a blanket approval
    /// that a single-token revocation would contradict).
    Custom(String),
    /// An owner tried to approve itself.
    SelfApprove,
    /// The caller may not act on the token.
    NotApproved,
    /// The token has already been minted.
    TokenExists,
    /// The token does not exist, or an index is out of range.
    TokenNotExists,
    /// A receiver refused a safe transfer.
    SafeTransferCheckFailed(String),
}

/// Errors of ownership checks made by a contract around a ledger.
#[derive(Debug, Clone, Copy, PartialEq, Eq)]
pub enum OwnableError {
    NotAnOwner,
}

impl OwnableError {
    /// The error's name, as it is reported inside a `Custom` ledger error.
    pub fn to_string(&self) -> (r: String)
        ensures
            r@ == ownable_error_name(*self),
    {
        match self {
            OwnableError::NotAnOwner => {
                proof {
                    reveal_strlit("NotAnOwner");
                }
                "NotAnOwner".to_owned()
            },
        }
    }
}

/// The name of each ownership error.
pub open spec fn ownable_error_name(e: OwnableError) -> Seq<char> {
    match e {
        OwnableError::NotAnOwner => seq!['N', 'o', 't', 'A', 'n', 'O', 'w', 'n', 'e', 'r'],
    }
}

} // verus!
