//! The execution frame of a caller: its persistent storage, what it holds
//! in memory, and who has the last word on what persists.
//!
//! A frame reads cells into memory and writes to them there; when it
//! completes, its memory is flushed over the storage. Code that it
//! delegates to runs against the storage itself. So after an ordinary
//! delegate invocation the caller still has the last word: where both
//! wrote to a cell, the caller's value persists. A tail call turns this
//! round: the callee's frame becomes the last of the execution, the
//! caller's memory is dropped, and the storage persists as the callee
//! left it.
//!
//! A known hazard: a caller that writes to its storage after a tail call
//! has no say any more, and on a real runtime nothing determines which
//! of the writes persist. The frame does not smooth this over. It refuses
//! such a write and reports it as `ConflictingTailCallUsage`.

use vstd::prelude::*;
use crate::bytes::copy_bytes;
use crate::invocation::{CallOutcome, InvocationRequest, InvokeError};
use crate::reference::AccountId;
use crate::runtime::{dispatched, Runtime, RuntimeView};
use crate::storage::Storage;

verus! {

/// The frame whose state is the one that persists when execution ends.
#[derive(Clone, Copy, Debug, PartialEq, Eq)]
pub enum Authority {
    /// The caller's own frame: its memory is flushed over the storage when
    /// it completes.
    Caller,
    /// A frame that the caller delegated to with a tail call: what that
    /// frame left in storage stays, and the caller writes no more.
    Delegate,
}

/// One frame of a contract that may delegate.
pub struct Frame {
    account: AccountId,
    persisted: Storage,
    memory: Storage,
    authority: Authority,
}

/// A frame as specifications see it.
pub ghost struct FrameView {
    /// The identity of the contract that the frame belongs to.
    pub account: Seq<u8>,
    /// The contract's storage as the runtime holds it.
    pub persisted: Map<u32, Seq<u8>>,
    /// The cells that the frame holds in memory: those it has loaded, with
    /// what it has written to them since.
    pub memory: Map<u32, Seq<u8>>,
    /// Who has the last word.
    pub authority: Authority,
}

impl View for Frame {
    type V = FrameView;

    closed spec fn view(&self) -> FrameView {
        FrameView {
            account: self.account@,
            persisted: self.persisted@,
            memory: self.memory@,
            authority: self.authority,
        }
    }
}

/// The frame after it has read the cell under `key`, and what it read.
///
/// A frame with the last word reads its memory first, and keeps what it
/// reads from storage in memory. A frame without it reads the storage.
pub open spec fn loaded(frame: FrameView, key: u32) -> (FrameView, Option<Seq<u8>>) {
    if frame.authority == Authority::Caller && frame.memory.contains_key(key) {
        (frame, Some(frame.memory[key]))
    } else if !frame.persisted.contains_key(key) {
        (frame, None)
    } else if frame.authority == Authority::Caller {
        (
            FrameView { memory: frame.memory.insert(key, frame.persisted[key]), ..frame },
            Some(frame.persisted[key]),
        )
    } else {
        (frame, Some(frame.persisted[key]))
    }
}

/// The frame after it has tried to write `value` under `key`, and whether
/// the write took place: it does while the frame has the last word.
pub open spec fn written(frame: FrameView, key: u32, value: Seq<u8>) -> (
    FrameView,
    Result<(), InvokeError>,
) {
    if frame.authority == Authority::Caller {
        (FrameView { memory: frame.memory.insert(key, value), ..frame }, Ok(()))
    } else {
        (frame, Err(InvokeError::ConflictingTailCallUsage))
    }
}

/// The frame after a delegate invocation, and the result of the
/// invocation.
///
/// The runtime runs the code against the frame's persistent storage and
/// under the frame's identity. With the tail-call flag, an invocation that
/// succeeds takes the last word from the caller: the caller's memory is
/// dropped. In every other case memory and authority stay as they were.
pub open spec fn invoked(
    frame: FrameView,
    runtime: RuntimeView,
    code: Seq<u8>,
    selector: Seq<u8>,
    input: Seq<u8>,
    tail_call: bool,
) -> (FrameView, Result<Seq<u8>, InvokeError>) {
    let (after, result) = dispatched(
        runtime,
        code,
        selector,
        input,
        frame.account,
        frame.persisted,
    );
    if result.is_ok() && tail_call {
        (
            FrameView {
                persisted: after,
                memory: Map::empty(),
                authority: Authority::Delegate,
                ..frame
            },
            result,
        )
    } else {
        (FrameView { persisted: after, ..frame }, result)
    }
}

/// The storage that persists when the frame completes: where the caller
/// has the last word, its memory over the storage; else the storage alone.
pub open spec fn completed(frame: FrameView) -> Map<u32, Seq<u8>> {
    match frame.authority {
        Authority::Caller => frame.persisted.union_prefer_right(frame.memory),
        Authority::Delegate => frame.persisted,
    }
}

/// The storage that persists when the frame is aborted: the storage
/// alone, without what the frame holds in memory.
pub open spec fn aborted(frame: FrameView) -> Map<u32, Seq<u8>> {
    frame.persisted
}

impl Frame {
    /// A fresh frame of the contract `account` over its storage: nothing
    /// in memory, the last word with the caller.
    pub fn enter(account: AccountId, persisted: Storage) -> (frame: Frame)
        ensures
            frame@ == (FrameView {
                account: account@,
                persisted: persisted@,
                memory: Map::empty(),
                authority: Authority::Caller,
            }),
    {
        Frame { account, persisted, memory: Storage::new(), authority: Authority::Caller }
    }

    /// The identity that the frame runs under.
    pub fn account(&self) -> (account: AccountId)
        ensures
            account@ == self@.account,
    {
        self.account
    }

    /// The contract's storage as the runtime holds it.
    pub fn persisted(&self) -> (storage: &Storage)
        ensures
            storage@ == self@.persisted,
    {
        &self.persisted
    }

    /// The cells that the frame holds in memory.
    pub fn memory(&self) -> (storage: &Storage)
        ensures
            storage@ == self@.memory,
    {
        &self.memory
    }

    /// Who has the last word.
    pub fn authority(&self) -> (authority: Authority)
        ensures
            authority == self@.authority,
    {
        self.authority
    }

    /// Reads the cell under `key`.
    pub fn load(&mut self, key: u32) -> (value: Option<Vec<u8>>)
        ensures
            final(self)@ == loaded(old(self)@, key).0,
            match value {
                Some(bytes) => loaded(old(self)@, key).1 == Some(bytes@),
                None => loaded(old(self)@, key).1 is None,
            },
    {
        match self.authority {
            Authority::Caller => {
                match self.memory.get(key) {
                    Some(bytes) => Some(bytes),
                    None => {
                        match self.persisted.get(key) {
                            Some(bytes) => {
                                let kept = copy_bytes(bytes.as_slice());
                                self.memory.set(key, kept);
                                Some(bytes)
                            },
                            None => None,
                        }
                    },
                }
            },
            Authority::Delegate => self.persisted.get(key),
        }
    }

    /// Writes `value` under `key`, in the frame's memory.
    ///
    /// Fails with `ConflictingTailCallUsage`, and writes nothing, exactly
    /// when a tail call has taken the last word from the caller. What
    /// would persist of such a write on a real runtime is not determined;
    /// a caller should not rely on either answer.
    pub fn write(&mut self, key: u32, value: Vec<u8>) -> (result: Result<(), InvokeError>)
        ensures
            final(self)@ == written(old(self)@, key, value@).0,
            result == written(old(self)@, key, value@).1,
    {
        match self.authority {
            Authority::Caller => {
                self.memory.set(key, value);
                Ok(())
            },
            Authority::Delegate => Err(InvokeError::ConflictingTailCallUsage),
        }
    }

    /// Invokes the code named in `request` on behalf of this frame: against
    /// this frame's storage and under its identity.
    pub fn delegate_invoke(&mut self, runtime: &Runtime, request: &InvocationRequest) -> (outcome:
        CallOutcome)
        ensures
            final(self)@ == invoked(
                old(self)@,
                runtime@,
                request.code@,
                request.selector@,
                request.input@,
                request.flags.tail_call,
            ).0,
            outcome@ == invoked(
                old(self)@,
                runtime@,
                request.code@,
                request.selector@,
                request.input@,
                request.flags.tail_call,
            ).1,
    {
        let outcome = runtime.dispatch(request, &self.account, &mut self.persisted);
        if request.flags.tail_call && outcome.is_success() {
            self.memory = Storage::new();
            self.authority = Authority::Delegate;
        }
        outcome
    }

    /// Gives the frame up and hands back the storage that persists: the
    /// writes that the frame holds in memory are dropped.
    pub fn abort(self) -> (storage: Storage)
        ensures
            storage@ == aborted(self@),
    {
        self.persisted
    }

    /// Ends the frame and hands back the storage that persists.
    pub fn complete(self) -> (storage: Storage)
        ensures
            storage@ == completed(self@),
    {
        let mut storage = self.persisted;
        match self.authority {
            Authority::Caller => {
                storage.overlay(&self.memory);
            },
            Authority::Delegate => {},
        }
        storage
    }
}

} // verus!
