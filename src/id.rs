use vstd::prelude::*;

use crate::account::AccountId;
use crate::model::{lemma_byte_models, Modeled};

verus! {

/// The identifier of a non-fungible token: an unsigned integer of one of
/// several widths, or a byte string.
///
/// Identifiers are ordered first by variant, in the order declared here, then
/// by value (byte strings lexicographically). Nothing in the ledger depends on
/// that order; it only makes storage and enumeration deterministic.
#[derive(Debug, Clone, PartialEq, Eq, PartialOrd, Ord)]
pub enum Id {
    U8(u8),
    U16(u16),
    U32(u32),
    U64(u64),
    U128(u128),
    Bytes(Vec<u8>),
}

/// The mathematical value of an `Id`.
pub enum IdView {
    U8(u8),
    U16(u16),
    U32(u32),
    U64(u64),
    U128(u128),
    Bytes(Seq<u8>),
}

impl Modeled for Id {
    type Model = IdView;

    open spec fn model(&self) -> IdView {
        match self {
            Id::U8(v) => IdView::U8(*v),
            Id::U16(v) => IdView::U16(*v),
            Id::U32(v) => IdView::U32(*v),
            Id::U64(v) => IdView::U64(*v),
            Id::U128(v) => IdView::U128(*v),
            Id::Bytes(v) => IdView::Bytes(v@),
        }
    }

    fn model_eq(&self, other: &Id) -> (r: bool) {
        match (self, other) {
            (Id::U8(a), Id::U8(b)) => *a == *b,
            (Id::U16(a), Id::U16(b)) => *a == *b,
            (Id::U32(a), Id::U32(b)) => *a == *b,
            (Id::U64(a), Id::U64(b)) => *a == *b,
            (Id::U128(a), Id::U128(b)) => *a == *b,
            (Id::Bytes(a), Id::Bytes(b)) => {
                proof {
                    lemma_byte_models(a@);
                    lemma_byte_models(b@);
                }
                a.model_eq(b)
            },
            _ => false,
        }
    }

    fn duplicate(&self) -> (r: Id) {
        match self {
            Id::U8(v) => Id::U8(*v),
            Id::U16(v) => Id::U16(*v),
            Id::U32(v) => Id::U32(*v),
            Id::U64(v) => Id::U64(*v),
            Id::U128(v) => Id::U128(*v),
            Id::Bytes(v) => {
                let w = v.duplicate();
                proof {
                    lemma_byte_models(v@);
                    lemma_byte_models(w@);
                }
                Id::Bytes(w)
            },
        }
    }
}

impl Id {
    /// The identifier made of an account's raw bytes.
    pub fn from_account(account: &AccountId) -> (r: Id)
        ensures
            r.model() == IdView::Bytes(account.bytes@),
    {
        let mut bytes: Vec<u8> = Vec::new();
        let mut i: usize = 0;
        while i < 32
            invariant
                0 <= i <= 32,
                bytes@ == account.bytes@.subrange(0, i as int),
            decreases 32 - i,
        {
            bytes.push(account.bytes[i]);
            i += 1;
            assert(bytes@ =~= account.bytes@.subrange(0, i as int));
        }
        assert(account.bytes@.subrange(0, 32) =~= account.bytes@);
        Id::Bytes(bytes)
    }
}

} // verus!
