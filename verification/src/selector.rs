//! Selectors: the four bytes that name an entry point of a contract.

use vstd::prelude::*;
use crate::host::{blake2x256, blake2x256_digest};
use crate::bytes::same_bytes;
use vstd::string::StringSliceAdditionalSpecFns;

verus! {

/// The selector that a 32-byte digest yields: its first four bytes.
pub open spec fn selector_of_digest(digest: Seq<u8>) -> Seq<u8> {
    digest.subrange(0, 4)
}

/// The selector of the entry point called `name`: the first four bytes of
/// the BLAKE2b-256 digest of the name's bytes.
pub open spec fn selector_of_name(name: Seq<u8>) -> Seq<u8> {
    selector_of_digest(blake2x256_digest(name))
}

/// The identifier of an entry point within a contract's interface.
#[derive(Clone, Copy, Debug, PartialEq, Eq)]
pub struct Selector {
    bytes: [u8; 4],
}

impl View for Selector {
    type V = Seq<u8>;

    closed spec fn view(&self) -> Seq<u8> {
        self.bytes@
    }
}

impl Selector {
    /// The selector with exactly these bytes.
    pub fn new(bytes: [u8; 4]) -> (selector: Selector)
        ensures
            selector@ == bytes@,
    {
        Selector { bytes }
    }

    /// The four bytes of the selector.
    pub fn to_bytes(&self) -> (bytes: [u8; 4])
        ensures
            bytes@ == self@,
    {
        self.bytes
    }

    /// Whether both selectors name the same entry point.
    pub fn same_as(&self, other: &Selector) -> (same: bool)
        ensures
            same == (self@ == other@),
    {
        same_bytes(&self.bytes, &other.bytes)
    }

    /// Cuts the selector out of the digest of an entry point's name.
    pub fn from_digest(digest: &[u8; 32]) -> (selector: Selector)
        ensures
            selector@ == selector_of_digest(digest@),
    {
        let bytes: [u8; 4] = [digest[0], digest[1], digest[2], digest[3]];
        assert(bytes@ =~= digest@.subrange(0, 4));
        Selector { bytes }
    }

    /// Derives the selector of the entry point called `name`.
    pub fn from_name(name: &str) -> (selector: Selector)
        ensures
            selector@ == selector_of_name(name.spec_bytes()),
    {
        let digest = blake2x256(name.as_bytes());
        Selector::from_digest(&digest)
    }
}

} // verus!
