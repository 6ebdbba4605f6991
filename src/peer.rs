use vstd::prelude::*;

use crate::account::AccountId;

verus! {

/// A call that the fungible ledger asks its host to make, synchronously and
/// with no value attached, on a peer ledger; the host hands the peer's result
/// back to the caller unchanged.
#[derive(Debug, Clone, PartialEq, Eq)]
pub enum PeerCall {
    /// `transfer_from(from, to, value, data)` on `ledger`, with the calling
    /// ledger as spender.
    TransferFrom { ledger: AccountId, from: AccountId, to: AccountId, value: u128, data: Vec<u8> },
    /// `transfer(to, value, data)` on `ledger`.
    Transfer { ledger: AccountId, to: AccountId, value: u128, data: Vec<u8> },
}

/// The selector of each call: the first four bytes of the hash of the
/// method's canonical signature.
pub open spec fn selector_of(call: PeerCall) -> Seq<u8> {
    match call {
        PeerCall::TransferFrom { .. } => seq![84u8, 179u8, 199u8, 110u8],
        PeerCall::Transfer { .. } => seq![219u8, 32u8, 249u8, 245u8],
    }
}

impl PeerCall {
    /// The four bytes that dispatch the call on the peer ledger.
    pub fn selector(&self) -> (r: [u8; 4])
        ensures
            r@ == selector_of(*self),
    {
        let r: [u8; 4] = match self {
            PeerCall::TransferFrom { .. } => [84, 179, 199, 110],
            PeerCall::Transfer { .. } => [219, 32, 249, 245],
        };
        assert(r@ =~= selector_of(*self));
        r
    }
}

} // verus!
