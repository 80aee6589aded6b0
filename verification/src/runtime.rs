//! An in-memory runtime: the code it holds, and how it dispatches a
//! delegate invocation against a caller's storage.

use vstd::prelude::*;
use crate::invocation::{CallOutcome, InvocationRequest, InvokeError};
use crate::lookup::{first_at, lemma_table_at, lemma_table_push, lemma_table_replace, table};
use crate::other_contract::{message_effect, Message, OtherContract};
use crate::reference::{AccountId, CodeReference};
use crate::selector::Selector;
use crate::storage::Storage;

verus! {

/// What stands behind a selector: the message that runs, and what running
/// it costs.
#[derive(Clone, Copy, Debug, PartialEq, Eq)]
pub struct Binding {
    /// The message that the entry point runs.
    pub message: Message,
    /// The weight that one run of the entry point uses.
    pub weight: u64,
}

struct EntryPoint {
    selector: Selector,
    binding: Binding,
}

/// A deployable unit of code: a reference and the entry points reached
/// through it.
pub struct CodeUnit {
    reference: CodeReference,
    entry_points: Vec<EntryPoint>,
}

/// A code unit as specifications see it.
pub ghost struct CodeUnitView {
    /// The bytes of the reference that names the unit.
    pub reference: Seq<u8>,
    /// The entry points, by the bytes of their selectors.
    pub interface: Map<Seq<u8>, Binding>,
}

impl View for CodeUnit {
    type V = CodeUnitView;

    closed spec fn view(&self) -> CodeUnitView {
        CodeUnitView {
            reference: self.reference@,
            interface: table(self.selectors(), self.bindings()),
        }
    }
}

impl CodeUnit {
    spec fn selectors(&self) -> Seq<Seq<u8>> {
        Seq::new(self.entry_points@.len(), |i: int| self.entry_points@[i].selector@)
    }

    spec fn bindings(&self) -> Seq<Binding> {
        Seq::new(self.entry_points@.len(), |i: int| self.entry_points@[i].binding)
    }

    fn position(&self, selector: &Selector) -> (found: Option<usize>)
        ensures
            match found {
                Some(i) => first_at(self.selectors(), selector@, i as int),
                None => !self.selectors().contains(selector@),
            },
    {
        let mut i: usize = 0;
        while i < self.entry_points.len()
            invariant
                i <= self.entry_points.len(),
                forall|j: int| 0 <= j < i ==> self.selectors()[j] != selector@,
            decreases self.entry_points.len() - i,
        {
            if self.entry_points[i].selector.same_as(selector) {
                return Some(i);
            }
            i += 1;
        }
        None
    }

    /// A unit named `reference`, without entry points yet.
    pub fn new(reference: CodeReference) -> (unit: CodeUnit)
        ensures
            unit@.reference == reference@,
            unit@.interface == Map::<Seq<u8>, Binding>::empty(),
    {
        let unit = CodeUnit { reference, entry_points: Vec::new() };
        assert(unit@.interface =~= Map::<Seq<u8>, Binding>::empty());
        unit
    }

    /// The reference that names the unit.
    pub fn reference(&self) -> (reference: CodeReference)
        ensures
            reference@ == self@.reference,
    {
        self.reference
    }

    /// Binds `selector` to a message, in place of what it was bound to.
    pub fn bind(&mut self, selector: Selector, message: Message, weight: u64)
        ensures
            final(self)@.reference == old(self)@.reference,
            final(self)@.interface == old(self)@.interface.insert(
                selector@,
                Binding { message, weight },
            ),
    {
        let binding = Binding { message, weight };
        match self.position(&selector) {
            Some(i) => {
                proof {
                    lemma_table_replace(self.selectors(), self.bindings(), i as int, binding);
                }
                self.entry_points.set(i, EntryPoint { selector, binding });
                assert(self.selectors() =~= old(self).selectors());
                assert(self.bindings() =~= old(self).bindings().update(i as int, binding));
            },
            None => {
                proof {
                    lemma_table_push(self.selectors(), self.bindings(), selector@, binding);
                }
                self.entry_points.push(EntryPoint { selector, binding });
                assert(self.selectors() =~= old(self).selectors().push(selector@));
                assert(self.bindings() =~= old(self).bindings().push(binding));
            },
        }
    }

    /// What `selector` is bound to, if it names an entry point of the unit.
    pub fn resolve(&self, selector: &Selector) -> (binding: Option<Binding>)
        ensures
            match binding {
                Some(found) => self@.interface.contains_key(selector@) && found
                    == self@.interface[selector@],
                None => !self@.interface.contains_key(selector@),
            },
    {
        match self.position(selector) {
            Some(i) => {
                proof {
                    lemma_table_at(self.selectors(), self.bindings(), selector@, i as int);
                }
                Some(self.entry_points[i].binding)
            },
            None => None,
        }
    }
}

/// The runtime as specifications see it.
pub ghost struct RuntimeView {
    /// The interface of each unit of code that the runtime holds, by the
    /// bytes of the unit's reference.
    pub codes: Map<Seq<u8>, Map<Seq<u8>, Binding>>,
    /// The most weight that one invocation may use.
    pub weight_limit: u64,
}

/// A runtime that holds code and runs it on request.
pub struct Runtime {
    units: Vec<CodeUnit>,
    weight_limit: u64,
}

impl View for Runtime {
    type V = RuntimeView;

    closed spec fn view(&self) -> RuntimeView {
        RuntimeView {
            codes: table(self.references(), self.interfaces()),
            weight_limit: self.weight_limit,
        }
    }
}

/// What the runtime makes of an invocation: the caller's storage
/// afterwards, and the result.
///
/// The code is looked up first, then the entry point, then the weight is
/// held against the limit. Only an invocation that passes all three runs,
/// and only then does the storage change.
pub open spec fn dispatched(
    runtime: RuntimeView,
    code: Seq<u8>,
    selector: Seq<u8>,
    input: Seq<u8>,
    account: Seq<u8>,
    storage: Map<u32, Seq<u8>>,
) -> (Map<u32, Seq<u8>>, Result<Seq<u8>, InvokeError>) {
    if !runtime.codes.contains_key(code) {
        (storage, Err(InvokeError::CodeNotFound))
    } else if !runtime.codes[code].contains_key(selector) {
        (storage, Err(InvokeError::EntryPointNotFound))
    } else if runtime.codes[code][selector].weight > runtime.weight_limit {
        (storage, Err(InvokeError::ResourceLimitExceeded))
    } else {
        let (after, payload) = message_effect(
            runtime.codes[code][selector].message,
            input,
            account,
            storage,
        );
        (after, Ok(payload))
    }
}

impl Runtime {
    spec fn references(&self) -> Seq<Seq<u8>> {
        Seq::new(self.units@.len(), |i: int| self.units@[i]@.reference)
    }

    spec fn interfaces(&self) -> Seq<Map<Seq<u8>, Binding>> {
        Seq::new(self.units@.len(), |i: int| self.units@[i]@.interface)
    }

    fn position(&self, reference: &CodeReference) -> (found: Option<usize>)
        ensures
            match found {
                Some(i) => first_at(self.references(), reference@, i as int),
                None => !self.references().contains(reference@),
            },
    {
        let mut i: usize = 0;
        while i < self.units.len()
            invariant
                i <= self.units.len(),
                forall|j: int| 0 <= j < i ==> self.references()[j] != reference@,
            decreases self.units.len() - i,
        {
            if self.units[i].reference().same_as(reference) {
                return Some(i);
            }
            i += 1;
        }
        None
    }

    /// A runtime without code, which lets one invocation use at most
    /// `weight_limit`.
    pub fn new(weight_limit: u64) -> (runtime: Runtime)
        ensures
            runtime@.codes == Map::<Seq<u8>, Map<Seq<u8>, Binding>>::empty(),
            runtime@.weight_limit == weight_limit,
    {
        let runtime = Runtime { units: Vec::new(), weight_limit };
        assert(runtime@.codes =~= Map::<Seq<u8>, Map<Seq<u8>, Binding>>::empty());
        runtime
    }

    /// Takes a unit of code in, in place of any unit of the same
    /// reference.
    pub fn upload(&mut self, unit: CodeUnit)
        ensures
            final(self)@.codes == old(self)@.codes.insert(unit@.reference, unit@.interface),
            final(self)@.weight_limit == old(self)@.weight_limit,
    {
        let reference = unit.reference();
        match self.position(&reference) {
            Some(i) => {
                proof {
                    lemma_table_replace(
                        self.references(),
                        self.interfaces(),
                        i as int,
                        unit@.interface,
                    );
                }
                self.units.set(i, unit);
                assert(self.references() =~= old(self).references());
                assert(self.interfaces() =~= old(self).interfaces().update(
                    i as int,
                    unit@.interface,
                ));
            },
            None => {
                proof {
                    lemma_table_push(
                        self.references(),
                        self.interfaces(),
                        unit@.reference,
                        unit@.interface,
                    );
                }
                self.units.push(unit);
                assert(self.references() =~= old(self).references().push(unit@.reference));
                assert(self.interfaces() =~= old(self).interfaces().push(unit@.interface));
            },
        }
    }

    /// Whether the runtime holds code under `reference`.
    pub fn has_code(&self, reference: &CodeReference) -> (present: bool)
        ensures
            present == self@.codes.contains_key(reference@),
    {
        self.position(reference).is_some()
    }

    /// Runs `request` against `storage`, under the identity `account`.
    ///
    /// The storage is the caller's, and so is the identity: the code named
    /// in the request brings neither. A request that fails leaves the
    /// storage as it was.
    pub fn dispatch(
        &self,
        request: &InvocationRequest,
        account: &AccountId,
        storage: &mut Storage,
    ) -> (outcome: CallOutcome)
        ensures
            (final(storage)@, outcome@) == dispatched(
                self@,
                request.code@,
                request.selector@,
                request.input@,
                account@,
                old(storage)@,
            ),
    {
        match self.position(&request.code) {
            None => CallOutcome::Failure(InvokeError::CodeNotFound),
            Some(i) => {
                proof {
                    lemma_table_at(
                        self.references(),
                        self.interfaces(),
                        request.code@,
                        i as int,
                    );
                }
                match self.units[i].resolve(&request.selector) {
                    None => CallOutcome::Failure(InvokeError::EntryPointNotFound),
                    Some(binding) => {
                        if binding.weight > self.weight_limit {
                            CallOutcome::Failure(InvokeError::ResourceLimitExceeded)
                        } else {
                            CallOutcome::Success(
                                OtherContract::execute(
                                    binding.message,
                                    request.input.as_slice(),
                                    account,
                                    storage,
                                ),
                            )
                        }
                    },
                }
            },
        }
    }
}

} // verus!
