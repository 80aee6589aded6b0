//! The contract whose code is delegated to: it keeps one flag.

use vstd::prelude::*;
use vstd::string::StringSliceAdditionalSpecFns;
use crate::bytes::{copy_bytes, decode_flag, encode_flag, flag_bytes, flag_of};
use crate::reference::{AccountId, CodeReference};
use crate::runtime::{Binding, CodeUnit};
use crate::selector::{selector_of_name, Selector};
use crate::storage::{Storage, ROOT_KEY};

verus! {

/// The name of the entry point that inverts the flag.
pub const FLIP: &'static str = "flip";

/// The name of the entry point that returns the flag.
pub const GET: &'static str = "get";

/// The name of the entry point that stores its argument as the flag.
pub const SET: &'static str = "set";

/// The name of the entry point that returns the account the code runs under.
pub const GET_ACCOUNT_ID: &'static str = "get_account_id";

/// The selector under which `flip` is reached.
pub open spec fn flip_selector() -> Seq<u8> {
    selector_of_name(FLIP.spec_bytes())
}

/// The flag that a storage holds in its root cell. A storage without a
/// root cell holds `false`.
pub open spec fn flag_at_root(storage: Map<u32, Seq<u8>>) -> bool {
    storage.contains_key(ROOT_KEY) && flag_of(storage[ROOT_KEY])
}

/// A contract that keeps one flag.
#[derive(Clone, Copy, Debug, PartialEq, Eq)]
pub struct OtherContract {
    value: bool,
}

impl View for OtherContract {
    type V = bool;

    closed spec fn view(&self) -> bool {
        self.value
    }
}

/// The messages that the contract answers.
#[derive(Clone, Copy, Debug, PartialEq, Eq)]
pub enum Message {
    /// Invert the flag.
    Flip,
    /// Return the flag.
    Get,
    /// Store the argument as the flag.
    Assign,
    /// Return the account the code runs under.
    GetAccountId,
}

/// What a message does to the storage it runs against, and what it
/// returns: the storage afterwards, then the payload.
pub open spec fn message_effect(
    message: Message,
    input: Seq<u8>,
    account: Seq<u8>,
    storage: Map<u32, Seq<u8>>,
) -> (Map<u32, Seq<u8>>, Seq<u8>) {
    match message {
        Message::Flip => (
            storage.insert(ROOT_KEY, flag_bytes(!flag_at_root(storage))),
            Seq::empty(),
        ),
        Message::Get => (storage, flag_bytes(flag_at_root(storage))),
        Message::Assign => (storage.insert(ROOT_KEY, flag_bytes(flag_of(input))), Seq::empty()),
        Message::GetAccountId => (storage, account),
    }
}

/// No message touches a cell but the root cell.
pub proof fn lemma_message_keeps_other_cells(
    message: Message,
    input: Seq<u8>,
    account: Seq<u8>,
    storage: Map<u32, Seq<u8>>,
    key: u32,
)
    requires
        key != ROOT_KEY,
    ensures
        message_effect(message, input, account, storage).0.contains_key(key)
            == storage.contains_key(key),
        message_effect(message, input, account, storage).0[key] == storage[key],
{
}

/// The interface of the contract's code, each entry point at `weight`.
///
/// `flip` is bound last: it stands whatever the other names hash to.
pub open spec fn code_interface(weight: u64) -> Map<Seq<u8>, Binding> {
    Map::<Seq<u8>, Binding>::empty().insert(
        selector_of_name(GET.spec_bytes()),
        Binding { message: Message::Get, weight },
    ).insert(
        selector_of_name(SET.spec_bytes()),
        Binding { message: Message::Assign, weight },
    ).insert(
        selector_of_name(GET_ACCOUNT_ID.spec_bytes()),
        Binding { message: Message::GetAccountId, weight },
    ).insert(flip_selector(), Binding { message: Message::Flip, weight })
}

/// The code's interface binds `flip` to the message that inverts the flag.
pub proof fn lemma_code_interface_binds_flip(weight: u64)
    ensures
        code_interface(weight).contains_key(flip_selector()),
        code_interface(weight)[flip_selector()] == (Binding { message: Message::Flip, weight }),
{
}

impl OtherContract {
    /// A contract that holds `init_value`.
    pub fn new(init_value: bool) -> (contract: OtherContract)
        ensures
            contract@ == init_value,
    {
        OtherContract { value: init_value }
    }

    /// Inverts the flag.
    pub fn flip(&mut self)
        ensures
            final(self)@ == !old(self)@,
    {
        self.value = !self.value;
    }

    /// The flag.
    pub fn get(&self) -> (value: bool)
        ensures
            value == self@,
    {
        self.value
    }

    /// Replaces the flag.
    pub fn set(&mut self, value: bool)
        ensures
            final(self)@ == value,
    {
        self.value = value;
    }

    /// The account that the contract's code runs under: the one that the
    /// runtime hands in, which under delegation is the caller's.
    pub fn get_account_id(&self, account: &AccountId) -> (id: AccountId)
        ensures
            id@ == account@,
    {
        *account
    }

    /// Reads the contract out of the root cell of the storage it is bound
    /// to.
    pub fn load(storage: &Storage) -> (contract: OtherContract)
        ensures
            contract@ == flag_at_root(storage@),
    {
        match storage.get(ROOT_KEY) {
            Some(bytes) => OtherContract { value: decode_flag(bytes.as_slice()) },
            None => OtherContract { value: false },
        }
    }

    /// Writes the contract into the root cell of the storage it is bound
    /// to.
    pub fn store(&self, storage: &mut Storage)
        ensures
            final(storage)@ == old(storage)@.insert(ROOT_KEY, flag_bytes(self@)),
    {
        storage.set(ROOT_KEY, encode_flag(self.value));
    }

    /// The contract's code as a unit that a runtime can take in: the four
    /// entry points under the selectors of their names, each at `weight`.
    pub fn code(reference: CodeReference, weight: u64) -> (unit: CodeUnit)
        ensures
            unit@.reference == reference@,
            unit@.interface == code_interface(weight),
    {
        let mut unit = CodeUnit::new(reference);
        unit.bind(Selector::from_name(GET), Message::Get, weight);
        unit.bind(Selector::from_name(SET), Message::Assign, weight);
        unit.bind(Selector::from_name(GET_ACCOUNT_ID), Message::GetAccountId, weight);
        unit.bind(Selector::from_name(FLIP), Message::Flip, weight);
        unit
    }

    /// Runs one message of the contract's code against `storage`, under
    /// the identity `account`: the contract is loaded from the storage,
    /// the message is applied, and a changed contract is written back.
    pub fn execute(
        message: Message,
        input: &[u8],
        account: &AccountId,
        storage: &mut Storage,
    ) -> (payload: Vec<u8>)
        ensures
            (final(storage)@, payload@) == message_effect(
                message,
                input@,
                account@,
                old(storage)@,
            ),
    {
        let mut contract = OtherContract::load(storage);
        match message {
            Message::Flip => {
                contract.flip();
                contract.store(storage);
                Vec::new()
            },
            Message::Get => encode_flag(contract.get()),
            Message::Assign => {
                contract.set(decode_flag(input));
                contract.store(storage);
                Vec::new()
            },
            Message::GetAccountId => {
                let bytes = contract.get_account_id(account).to_bytes();
                copy_bytes(&bytes)
            },
        }
    }
}

} // verus!
