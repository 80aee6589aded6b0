//! What a delegate invocation is made of, and what it comes back with.

use vstd::prelude::*;
use crate::bytes::copy_bytes;
use crate::reference::CodeReference;
use crate::selector::Selector;

verus! {

/// The switches that govern how an invocation is executed. Each is
/// independent of the others.
#[derive(Clone, Copy, Debug, PartialEq, Eq)]
pub struct InvocationFlags {
    /// Hand the caller's own input on to the callee, consuming it.
    pub forward_input: bool,
    /// Hand a copy of the caller's input on to the callee.
    pub clone_input: bool,
    /// Make the callee's frame the last of the execution: what it leaves in
    /// storage is what persists, and the caller's frame is not resumed.
    pub tail_call: bool,
    /// Let the callee call back into the caller.
    pub allow_reentry: bool,
}

impl InvocationFlags {
    /// No switch set: the caller's frame resumes after the invocation.
    pub fn none() -> (flags: InvocationFlags)
        ensures
            flags == (InvocationFlags {
                forward_input: false,
                clone_input: false,
                tail_call: false,
                allow_reentry: false,
            }),
    {
        InvocationFlags {
            forward_input: false,
            clone_input: false,
            tail_call: false,
            allow_reentry: false,
        }
    }

    /// Only the tail-call switch set.
    pub fn tail_call_only() -> (flags: InvocationFlags)
        ensures
            flags == (InvocationFlags {
                forward_input: false,
                clone_input: false,
                tail_call: true,
                allow_reentry: false,
            }),
    {
        InvocationFlags {
            forward_input: false,
            clone_input: false,
            tail_call: true,
            allow_reentry: false,
        }
    }
}

/// A delegate invocation, ready to be handed to a runtime.
#[derive(Debug, PartialEq, Eq)]
pub struct InvocationRequest {
    /// The code to run.
    pub code: CodeReference,
    /// The entry point of that code.
    pub selector: Selector,
    /// The encoded arguments of the entry point.
    pub input: Vec<u8>,
    /// How the invocation is executed.
    pub flags: InvocationFlags,
}

impl Clone for InvocationRequest {
    /// A request for the same invocation.
    fn clone(&self) -> (copy: InvocationRequest)
        ensures
            copy.code == self.code,
            copy.selector == self.selector,
            copy.input@ == self.input@,
            copy.flags == self.flags,
    {
        InvocationRequest {
            code: self.code,
            selector: self.selector,
            input: copy_bytes(self.input.as_slice()),
            flags: self.flags,
        }
    }
}

/// Why an invocation, or a write that follows one, did not take place.
#[derive(Clone, Copy, Debug, PartialEq, Eq)]
pub enum InvokeError {
    /// The runtime holds no code under the reference.
    CodeNotFound,
    /// The code has no entry point with the selector.
    EntryPointNotFound,
    /// The invocation would have used more than the runtime allows.
    ResourceLimitExceeded,
    /// The frame wrote to its storage after a tail call had handed the last
    /// word to the callee.
    ConflictingTailCallUsage,
}

/// How an invocation ended: with the callee's result, or with the reason
/// why there is none.
#[derive(Debug, PartialEq, Eq)]
pub enum CallOutcome {
    /// The callee ran; these are the bytes it returned.
    Success(Vec<u8>),
    /// The callee did not run to its end.
    Failure(InvokeError),
}

impl View for CallOutcome {
    type V = Result<Seq<u8>, InvokeError>;

    open spec fn view(&self) -> Result<Seq<u8>, InvokeError> {
        match self {
            CallOutcome::Success(payload) => Ok(payload@),
            CallOutcome::Failure(error) => Err(*error),
        }
    }
}

impl Clone for CallOutcome {
    /// The same outcome.
    fn clone(&self) -> (copy: CallOutcome)
        ensures
            copy@ == self@,
    {
        match self {
            CallOutcome::Success(payload) => CallOutcome::Success(copy_bytes(payload.as_slice())),
            CallOutcome::Failure(error) => CallOutcome::Failure(*error),
        }
    }
}

impl CallOutcome {
    /// Whether the callee ran to its end.
    pub fn is_success(&self) -> (success: bool)
        ensures
            success == self@.is_ok(),
    {
        match self {
            CallOutcome::Success(_) => true,
            CallOutcome::Failure(_) => false,
        }
    }
}

} // verus!
