//! What holds of every delegate invocation, whatever the runtime holds.

use vstd::prelude::*;
use crate::bytes::{flag_bytes, lemma_flag_round_trip};
use crate::flipper::{restored, stored, CrossContractFlipper, DELEGATE_TO_KEY};
use crate::frame::{completed, invoked, loaded, written, Authority, FrameView};
use crate::invocation::InvokeError;
use crate::other_contract::{
    code_interface, flag_at_root, flip_selector, lemma_code_interface_binds_flip,
    lemma_message_keeps_other_cells, Message,
};
use crate::runtime::{dispatched, Binding, RuntimeView};
use crate::storage::ROOT_KEY;

verus! {

/// Without the tail-call flag the caller's frame keeps the last word.
///
/// When the frame completes after the invocation, what persists is the
/// storage as the delegated code left it, with the caller's memory written
/// over it. So every cell that the caller holds in memory persists with
/// the caller's value, whatever the delegated code wrote there.
pub proof fn lemma_caller_state_wins_without_tail_call(
    frame: FrameView,
    runtime: RuntimeView,
    code: Seq<u8>,
    selector: Seq<u8>,
    input: Seq<u8>,
)
    requires
        frame.authority == Authority::Caller,
    ensures
        completed(invoked(frame, runtime, code, selector, input, false).0) == dispatched(
            runtime,
            code,
            selector,
            input,
            frame.account,
            frame.persisted,
        ).0.union_prefer_right(frame.memory),
        forall|key: u32| #[trigger]
            frame.memory.contains_key(key) ==> completed(
                invoked(frame, runtime, code, selector, input, false).0,
            ).contains_key(key) && completed(
                invoked(frame, runtime, code, selector, input, false).0,
            )[key] == frame.memory[key],
{
}

/// Whether two storages hold the same cells outside the keys of `held`.
pub open spec fn agree_outside(
    left: Map<u32, Seq<u8>>,
    right: Map<u32, Seq<u8>>,
    held: Map<u32, Seq<u8>>,
) -> bool {
    forall|key: u32|
        !held.contains_key(key) ==> (#[trigger] left.contains_key(key)) == right.contains_key(key)
            && left[key] == right[key]
}

/// Without the tail-call flag, what the delegated code wrote to cells that
/// the caller holds in memory leaves no trace: where it wrote to no other
/// cell, the storage persists as if nothing had been invoked, and shows
/// only what the caller's own frame wrote.
pub proof fn lemma_overwritten_invocation_leaves_no_trace(
    frame: FrameView,
    runtime: RuntimeView,
    code: Seq<u8>,
    selector: Seq<u8>,
    input: Seq<u8>,
)
    requires
        frame.authority == Authority::Caller,
        agree_outside(
            dispatched(runtime, code, selector, input, frame.account, frame.persisted).0,
            frame.persisted,
            frame.memory,
        ),
    ensures
        completed(invoked(frame, runtime, code, selector, input, false).0) == completed(frame),
{
    let after = dispatched(runtime, code, selector, input, frame.account, frame.persisted).0;
    assert forall|key: u32| !frame.memory.contains_key(key) implies (after.contains_key(key)
        == frame.persisted.contains_key(key) && after[key] == frame.persisted[key]) by {
        assert(after.contains_key(key) == frame.persisted.contains_key(key));
    }
    assert(completed(invoked(frame, runtime, code, selector, input, false).0) =~= completed(
        frame,
    ));
}

/// A write of the caller's frame after an invocation without the tail-call
/// flag persists, whatever the delegated code wrote to the same cell.
pub proof fn lemma_later_write_of_caller_persists(
    frame: FrameView,
    runtime: RuntimeView,
    code: Seq<u8>,
    selector: Seq<u8>,
    input: Seq<u8>,
    key: u32,
    value: Seq<u8>,
)
    requires
        frame.authority == Authority::Caller,
    ensures
        ({
            let returned = invoked(frame, runtime, code, selector, input, false).0;
            let (then, result) = written(returned, key, value);
            &&& result == Ok::<(), InvokeError>(())
            &&& completed(then).contains_key(key)
            &&& completed(then)[key] == value
        }),
{
}

/// With the tail-call flag, an invocation that succeeds gives the callee
/// the last word: when the frame completes, the storage is exactly as the
/// delegated code left it, whatever the caller held in memory.
pub proof fn lemma_callee_state_wins_with_tail_call(
    frame: FrameView,
    runtime: RuntimeView,
    code: Seq<u8>,
    selector: Seq<u8>,
    input: Seq<u8>,
)
    requires
        dispatched(runtime, code, selector, input, frame.account, frame.persisted).1.is_ok(),
    ensures
        completed(invoked(frame, runtime, code, selector, input, true).0) == dispatched(
            runtime,
            code,
            selector,
            input,
            frame.account,
            frame.persisted,
        ).0,
{
}

/// After a tail call that succeeded, a write of the caller's frame is
/// refused as `ConflictingTailCallUsage` and changes nothing.
pub proof fn lemma_write_after_tail_call_is_refused(
    frame: FrameView,
    runtime: RuntimeView,
    code: Seq<u8>,
    selector: Seq<u8>,
    input: Seq<u8>,
    key: u32,
    value: Seq<u8>,
)
    requires
        dispatched(runtime, code, selector, input, frame.account, frame.persisted).1.is_ok(),
    ensures
        ({
            let handed_over = invoked(frame, runtime, code, selector, input, true).0;
            written(handed_over, key, value) == (
                handed_over,
                Err::<(), InvokeError>(InvokeError::ConflictingTailCallUsage),
            )
        }),
{
}

/// The last word passes from the caller in one way only: by a tail call
/// that succeeds. No read, no write and no other invocation moves it, and
/// nothing gives it back.
pub proof fn lemma_only_a_tail_call_passes_the_last_word(
    frame: FrameView,
    runtime: RuntimeView,
    code: Seq<u8>,
    selector: Seq<u8>,
    input: Seq<u8>,
    tail_call: bool,
    key: u32,
    value: Seq<u8>,
)
    ensures
        ({
            let (after, result) = invoked(frame, runtime, code, selector, input, tail_call);
            after.authority == if tail_call && result.is_ok() {
                Authority::Delegate
            } else {
                frame.authority
            }
        }),
        loaded(frame, key).0.authority == frame.authority,
        written(frame, key, value).0.authority == frame.authority,
{
}

/// The reference that a contract delegates to is read-only: whatever is
/// invoked, and however it ends, the storage holds the same reference
/// afterwards.
pub proof fn lemma_reference_outlives_every_invocation(
    frame: FrameView,
    runtime: RuntimeView,
    code: Seq<u8>,
    selector: Seq<u8>,
    input: Seq<u8>,
    tail_call: bool,
)
    requires
        restored(frame.persisted) is Some,
    ensures
        ({
            let after = invoked(frame, runtime, code, selector, input, tail_call).0;
            &&& restored(after.persisted) is Some
            &&& restored(after.persisted).unwrap().delegate_to == restored(
                frame.persisted,
            ).unwrap().delegate_to
        }),
{
    if runtime.codes.contains_key(code) && runtime.codes[code].contains_key(selector) {
        lemma_message_keeps_other_cells(
            runtime.codes[code][selector].message,
            input,
            frame.account,
            frame.persisted,
            DELEGATE_TO_KEY,
        );
    }
}

/// Invoking code that the runtime does not hold fails with `CodeNotFound`
/// and leaves the frame, and with it all of the caller's storage, as it
/// was. Invoking it again does the same.
pub proof fn lemma_missing_code_changes_nothing(
    frame: FrameView,
    runtime: RuntimeView,
    code: Seq<u8>,
    selector: Seq<u8>,
    input: Seq<u8>,
    tail_call: bool,
)
    requires
        !runtime.codes.contains_key(code),
    ensures
        invoked(frame, runtime, code, selector, input, tail_call) == (
            frame,
            Err::<Seq<u8>, InvokeError>(InvokeError::CodeNotFound),
        ),
        completed(invoked(frame, runtime, code, selector, input, tail_call).0) == completed(
            frame,
        ),
        invoked(
            invoked(frame, runtime, code, selector, input, tail_call).0,
            runtime,
            code,
            selector,
            input,
            tail_call,
        ) == invoked(frame, runtime, code, selector, input, tail_call),
{
    let (after, result) = invoked(frame, runtime, code, selector, input, tail_call);
    assert(after.persisted == frame.persisted);
    assert(after == frame);
}

/// Invoking code that the runtime holds, with a selector that names none
/// of its entry points, fails with `EntryPointNotFound` and leaves the
/// frame, and with it all of the caller's storage, as it was.
pub proof fn lemma_unknown_selector_changes_nothing(
    frame: FrameView,
    runtime: RuntimeView,
    code: Seq<u8>,
    selector: Seq<u8>,
    input: Seq<u8>,
    tail_call: bool,
)
    requires
        runtime.codes.contains_key(code),
        !runtime.codes[code].contains_key(selector),
    ensures
        invoked(frame, runtime, code, selector, input, tail_call) == (
            frame,
            Err::<Seq<u8>, InvokeError>(InvokeError::EntryPointNotFound),
        ),
        completed(invoked(frame, runtime, code, selector, input, tail_call).0) == completed(
            frame,
        ),
{
    let (after, result) = invoked(frame, runtime, code, selector, input, tail_call);
    assert(after.persisted == frame.persisted);
    assert(after == frame);
}

/// An invocation that would use more weight than the runtime allows fails
/// with `ResourceLimitExceeded` and leaves the frame as it was.
pub proof fn lemma_excess_weight_changes_nothing(
    frame: FrameView,
    runtime: RuntimeView,
    code: Seq<u8>,
    selector: Seq<u8>,
    input: Seq<u8>,
    tail_call: bool,
)
    requires
        runtime.codes.contains_key(code),
        runtime.codes[code].contains_key(selector),
        runtime.codes[code][selector].weight > runtime.weight_limit,
    ensures
        invoked(frame, runtime, code, selector, input, tail_call) == (
            frame,
            Err::<Seq<u8>, InvokeError>(InvokeError::ResourceLimitExceeded),
        ),
{
    let (after, result) = invoked(frame, runtime, code, selector, input, tail_call);
    assert(after.persisted == frame.persisted);
    assert(after == frame);
}

/// Every invocation either succeeds or leaves the frame as it was.
pub proof fn lemma_failure_changes_nothing(
    frame: FrameView,
    runtime: RuntimeView,
    code: Seq<u8>,
    selector: Seq<u8>,
    input: Seq<u8>,
    tail_call: bool,
)
    ensures
        invoked(frame, runtime, code, selector, input, tail_call).1.is_err() ==> invoked(
            frame,
            runtime,
            code,
            selector,
            input,
            tail_call,
        ).0 == frame,
{
    let (after, result) = invoked(frame, runtime, code, selector, input, tail_call);
    if result.is_err() {
        assert(after.persisted == frame.persisted);
        assert(after == frame);
    }
}

/// A contract written to storage reads back as it was written: the
/// reference comes back with the very bytes that went in, and so does the
/// flag.
pub proof fn lemma_stored_contract_reads_back(
    contract: CrossContractFlipper,
    storage: Map<u32, Seq<u8>>,
)
    ensures
        restored(stored(contract@, storage)) == Some(contract@),
{
    contract.lemma_reference_length();
    lemma_flag_round_trip(contract@.value);
    let after = stored(contract@, storage);
    assert(after[DELEGATE_TO_KEY] == contract@.delegate_to);
    assert(after[ROOT_KEY] == flag_bytes(contract@.value));
}

/// Delegating `flip` as a tail call inverts the caller's flag: where the
/// runtime holds, under the reference, code whose `flip` inverts the flag
/// in the root cell, and running it is within the limit, the storage that
/// persists holds the inverted flag and is otherwise as it was. Nothing
/// more is needed to apply the result.
pub proof fn lemma_tail_call_of_flip_inverts_the_flag(
    frame: FrameView,
    runtime: RuntimeView,
    code: Seq<u8>,
    weight: u64,
)
    requires
        runtime.codes.contains_key(code),
        runtime.codes[code].contains_key(flip_selector()),
        runtime.codes[code][flip_selector()] == (Binding { message: Message::Flip, weight }),
        weight <= runtime.weight_limit,
    ensures
        ({
            let (after, result) = invoked(
                frame,
                runtime,
                code,
                flip_selector(),
                Seq::empty(),
                true,
            );
            &&& result == Ok::<Seq<u8>, InvokeError>(Seq::empty())
            &&& completed(after) == frame.persisted.insert(
                ROOT_KEY,
                flag_bytes(!flag_at_root(frame.persisted)),
            )
            &&& flag_at_root(completed(after)) == !flag_at_root(frame.persisted)
        }),
{
    lemma_flag_round_trip(!flag_at_root(frame.persisted));
}

/// Delegating `flip` as a tail call to the code of the contract that
/// keeps one flag inverts the caller's flag, wherever a run of that code
/// is within the runtime's limit.
pub proof fn lemma_tail_call_to_the_other_contract_inverts_the_flag(
    frame: FrameView,
    runtime: RuntimeView,
    code: Seq<u8>,
    weight: u64,
)
    requires
        runtime.codes.contains_key(code),
        runtime.codes[code] == code_interface(weight),
        weight <= runtime.weight_limit,
    ensures
        flag_at_root(
            completed(invoked(frame, runtime, code, flip_selector(), Seq::empty(), true).0),
        ) == !flag_at_root(frame.persisted),
{
    lemma_code_interface_binds_flip(weight);
    lemma_tail_call_of_flip_inverts_the_flag(frame, runtime, code, weight);
}

/// Without the tail-call flag, a frame that holds the root cell in memory
/// loses whatever it delegates: the code that this runtime runs writes to
/// the root cell alone, so the storage persists as if nothing had been
/// invoked. An inversion of the flag, in particular, is overwritten when
/// the caller's frame completes.
pub proof fn lemma_plain_call_is_overwritten(
    frame: FrameView,
    runtime: RuntimeView,
    code: Seq<u8>,
    selector: Seq<u8>,
    input: Seq<u8>,
)
    requires
        frame.authority == Authority::Caller,
        frame.memory.contains_key(ROOT_KEY),
    ensures
        completed(invoked(frame, runtime, code, selector, input, false).0) == completed(frame),
        completed(invoked(frame, runtime, code, selector, input, false).0)[ROOT_KEY]
            == frame.memory[ROOT_KEY],
{
    let after = dispatched(runtime, code, selector, input, frame.account, frame.persisted).0;
    assert forall|key: u32| !frame.memory.contains_key(key) implies (#[trigger] after.contains_key(
        key,
    )) == frame.persisted.contains_key(key) && after[key] == frame.persisted[key] by {
        if runtime.codes.contains_key(code) && runtime.codes[code].contains_key(selector) {
            lemma_message_keeps_other_cells(
                runtime.codes[code][selector].message,
                input,
                frame.account,
                frame.persisted,
                key,
            );
        }
    }
    lemma_overwritten_invocation_leaves_no_trace(frame, runtime, code, selector, input);
}

} // verus!
