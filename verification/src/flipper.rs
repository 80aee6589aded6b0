//! The contract that delegates: it keeps a flag and the reference of the
//! code that it lets flip the flag.

use vstd::prelude::*;
use crate::bytes::{copy_bytes, decode_flag, encode_flag, flag_bytes};
use crate::invocation::{InvocationFlags, InvocationRequest};
use crate::other_contract::{flag_at_root, flip_selector, FLIP};
use crate::reference::CodeReference;
use crate::selector::Selector;
use crate::storage::{Storage, ROOT_KEY};

verus! {

/// The key of the cell in which the contract keeps the reference of the
/// code it delegates to.
pub const DELEGATE_TO_KEY: u32 = 1;

/// A contract that flips its flag by delegating to foreign code.
#[derive(Clone, Copy, Debug, PartialEq, Eq)]
pub struct CrossContractFlipper {
    value: bool,
    delegate_to: CodeReference,
}

/// The contract as specifications see it.
pub ghost struct FlipperView {
    /// The flag.
    pub value: bool,
    /// The bytes of the reference of the code that is delegated to.
    pub delegate_to: Seq<u8>,
}

impl View for CrossContractFlipper {
    type V = FlipperView;

    closed spec fn view(&self) -> FlipperView {
        FlipperView { value: self.value, delegate_to: self.delegate_to@ }
    }
}

/// The storage after the contract has been written to it: the flag in the
/// root cell, the reference in a cell of its own.
pub open spec fn stored(contract: FlipperView, storage: Map<u32, Seq<u8>>) -> Map<u32, Seq<u8>> {
    storage.insert(ROOT_KEY, flag_bytes(contract.value)).insert(
        DELEGATE_TO_KEY,
        contract.delegate_to,
    )
}

/// The contract that a storage holds, if its reference cell holds a
/// reference.
pub open spec fn restored(storage: Map<u32, Seq<u8>>) -> Option<FlipperView> {
    if storage.contains_key(DELEGATE_TO_KEY) && storage[DELEGATE_TO_KEY].len() == 32 {
        Some(FlipperView { value: flag_at_root(storage), delegate_to: storage[DELEGATE_TO_KEY] })
    } else {
        None
    }
}

impl CrossContractFlipper {
    /// The reference that a contract holds has 32 bytes.
    pub proof fn lemma_reference_length(self)
        ensures
            self@.delegate_to.len() == 32,
    {
        self.delegate_to.lemma_length();
    }

    /// A contract that holds `init_value` and delegates to the code named
    /// `code_hash`.
    pub fn new(init_value: bool, code_hash: CodeReference) -> (contract: CrossContractFlipper)
        ensures
            contract@ == (FlipperView { value: init_value, delegate_to: code_hash@ }),
    {
        CrossContractFlipper { value: init_value, delegate_to: code_hash }
    }

    /// The flag.
    pub fn get_value(&mut self) -> (value: bool)
        ensures
            value == old(self)@.value,
            final(self)@ == old(self)@,
    {
        self.value
    }

    /// The reference of the code that is delegated to: the one that the
    /// contract was made with.
    pub fn delegate_to(&self) -> (reference: CodeReference)
        ensures
            reference@ == self@.delegate_to,
    {
        self.delegate_to
    }

    /// The delegate invocation that flips the flag: the entry point `flip`
    /// of the code delegated to, without arguments, as a tail call, so that
    /// what the callee writes is what persists.
    pub fn inc_delegate(&mut self) -> (request: InvocationRequest)
        ensures
            final(self)@ == old(self)@,
            request.code@ == old(self)@.delegate_to,
            request.selector@ == flip_selector(),
            request.input@ == Seq::<u8>::empty(),
            request.flags == (InvocationFlags {
                forward_input: false,
                clone_input: false,
                tail_call: true,
                allow_reentry: false,
            }),
    {
        InvocationRequest {
            code: self.delegate_to(),
            selector: Selector::from_name(FLIP),
            input: Vec::new(),
            flags: InvocationFlags::tail_call_only(),
        }
    }

    /// Writes the contract to `storage`.
    pub fn store(&self, storage: &mut Storage)
        ensures
            final(storage)@ == stored(self@, old(storage)@),
    {
        storage.set(ROOT_KEY, encode_flag(self.value));
        let reference = self.delegate_to.to_bytes();
        storage.set(DELEGATE_TO_KEY, copy_bytes(&reference));
    }

    /// Reads the contract out of `storage`. There is none where the
    /// reference cell is missing or does not hold 32 bytes.
    pub fn load(storage: &Storage) -> (contract: Option<CrossContractFlipper>)
        ensures
            match contract {
                Some(found) => restored(storage@) == Some(found@),
                None => restored(storage@) is None,
            },
    {
        let value = match storage.get(ROOT_KEY) {
            Some(bytes) => decode_flag(bytes.as_slice()),
            None => false,
        };
        match storage.get(DELEGATE_TO_KEY) {
            Some(bytes) => {
                if bytes.len() != 32 {
                    return None;
                }
                let mut reference = [0u8; 32];
                let mut i: usize = 0;
                while i < 32
                    invariant
                        i <= 32,
                        bytes.len() == 32,
                        forall|j: int| 0 <= j < i ==> reference@[j] == bytes@[j],
                    decreases 32 - i,
                {
                    reference[i] = bytes[i];
                    i += 1;
                }
                assert(reference@ =~= bytes@);
                Some(
                    CrossContractFlipper { value, delegate_to: CodeReference::new(reference) },
                )
            },
            None => None,
        }
    }
}

} // verus!
