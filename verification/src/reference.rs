//! Fixed-size identifiers: the code a contract delegates to, and the account
//! a frame runs under.

use vstd::prelude::*;
use crate::bytes::same_bytes;

verus! {

/// The hash that names a deployable unit of contract code.
#[derive(Clone, Copy, Debug, PartialEq, Eq)]
pub struct CodeReference {
    bytes: [u8; 32],
}

impl View for CodeReference {
    type V = Seq<u8>;

    closed spec fn view(&self) -> Seq<u8> {
        self.bytes@
    }
}

impl CodeReference {
    /// Names the code whose hash is `bytes`.
    pub fn new(bytes: [u8; 32]) -> (reference: CodeReference)
        ensures
            reference@ == bytes@,
    {
        CodeReference { bytes }
    }

    /// The identifier bytes, exactly as they were given.
    pub fn to_bytes(&self) -> (bytes: [u8; 32])
        ensures
            bytes@ == self@,
    {
        self.bytes
    }

    /// Whether both references name the same code.
    pub fn same_as(&self, other: &CodeReference) -> (same: bool)
        ensures
            same == (self@ == other@),
    {
        same_bytes(&self.bytes, &other.bytes)
    }

    /// A reference has 32 bytes.
    pub proof fn lemma_length(self)
        ensures
            self@.len() == 32,
    {
    }
}

/// The identity of a contract account.
#[derive(Clone, Copy, Debug, PartialEq, Eq)]
pub struct AccountId {
    bytes: [u8; 32],
}

impl View for AccountId {
    type V = Seq<u8>;

    closed spec fn view(&self) -> Seq<u8> {
        self.bytes@
    }
}

impl AccountId {
    /// The account with the given identifier.
    pub fn new(bytes: [u8; 32]) -> (account: AccountId)
        ensures
            account@ == bytes@,
    {
        AccountId { bytes }
    }

    /// The identifier bytes, exactly as they were given.
    pub fn to_bytes(&self) -> (bytes: [u8; 32])
        ensures
            bytes@ == self@,
    {
        self.bytes
    }
}

} // verus!
