use cross_contract_flipper::frame::{Authority, Frame};
use cross_contract_flipper::invocation::{CallOutcome, InvocationFlags, InvocationRequest, InvokeError};
use cross_contract_flipper::other_contract::OtherContract;
use cross_contract_flipper::reference::{AccountId, CodeReference};
use cross_contract_flipper::runtime::Runtime;
use cross_contract_flipper::selector::Selector;
use cross_contract_flipper::storage::{Storage, ROOT_KEY};

fn code() -> CodeReference {
    CodeReference::new([0xc0; 32])
}

fn caller() -> AccountId {
    AccountId::new([0xca; 32])
}

fn runtime() -> Runtime {
    let mut runtime = Runtime::new(100);
    runtime.upload(OtherContract::code(code(), 10));
    runtime
}

fn storage_with_flag(flag: bool) -> Storage {
    let mut storage = Storage::new();
    storage.set(ROOT_KEY, vec![flag as u8]);
    storage.set(77, vec![1, 2, 3]);
    storage
}

fn invocation(name: &str, tail_call: bool) -> InvocationRequest {
    let mut flags = InvocationFlags::none();
    flags.tail_call = tail_call;
    InvocationRequest { code: code(), selector: Selector::from_name(name), input: vec![], flags }
}

#[test]
fn fresh_frame_holds_nothing_in_memory() {
    let storage = storage_with_flag(false);
    let frame = Frame::enter(caller(), storage.clone());
    assert_eq!(frame.account(), caller());
    assert_eq!(frame.authority(), Authority::Caller);
    assert!(frame.persisted().agrees_with(&storage));
    assert!(frame.memory().agrees_with(&Storage::new()));
}

#[test]
fn frame_completed_at_once_leaves_the_storage_as_it_was() {
    let storage = storage_with_flag(true);
    let frame = Frame::enter(caller(), storage.clone());
    assert!(frame.complete().agrees_with(&storage));
}

#[test]
fn load_keeps_the_cell_in_memory() {
    let mut frame = Frame::enter(caller(), storage_with_flag(true));
    assert_eq!(frame.load(ROOT_KEY), Some(vec![1]));
    assert_eq!(frame.memory().get(ROOT_KEY), Some(vec![1]));
    assert_eq!(frame.memory().get(77), None);
    assert_eq!(frame.load(5), None);
    assert_eq!(frame.memory().get(5), None);
}

#[test]
fn load_reads_memory_before_storage() {
    let mut frame = Frame::enter(caller(), storage_with_flag(true));
    assert_eq!(frame.write(ROOT_KEY, vec![0]), Ok(()));
    assert_eq!(frame.load(ROOT_KEY), Some(vec![0]));
    assert_eq!(frame.persisted().get(ROOT_KEY), Some(vec![1]));
}

#[test]
fn write_persists_when_the_frame_completes() {
    let mut frame = Frame::enter(caller(), storage_with_flag(false));
    assert_eq!(frame.write(5, vec![9]), Ok(()));
    assert_eq!(frame.write(ROOT_KEY, vec![1]), Ok(()));
    assert_eq!(frame.persisted().get(5), None);
    let storage = frame.complete();
    assert_eq!(storage.get(5), Some(vec![9]));
    assert_eq!(storage.get(ROOT_KEY), Some(vec![1]));
    assert_eq!(storage.get(77), Some(vec![1, 2, 3]));
}

#[test]
fn write_is_dropped_when_the_frame_is_aborted() {
    let before = storage_with_flag(false);
    let mut frame = Frame::enter(caller(), before.clone());
    assert_eq!(frame.write(5, vec![9]), Ok(()));
    assert_eq!(frame.write(ROOT_KEY, vec![1]), Ok(()));
    assert!(frame.abort().agrees_with(&before));
}

#[test]
fn without_tail_call_the_callers_memory_overwrites_the_flip() {
    let before = storage_with_flag(false);
    let mut frame = Frame::enter(caller(), before.clone());
    assert_eq!(frame.load(ROOT_KEY), Some(vec![0]));
    let outcome = frame.delegate_invoke(&runtime(), &invocation("flip", false));
    assert_eq!(outcome, CallOutcome::Success(vec![]));
    assert_eq!(frame.authority(), Authority::Caller);
    assert_eq!(frame.persisted().get(ROOT_KEY), Some(vec![1]));
    assert_eq!(frame.memory().get(ROOT_KEY), Some(vec![0]));
    let after = frame.complete();
    assert_eq!(after.get(ROOT_KEY), Some(vec![0]));
    assert!(after.agrees_with(&before));
}

#[test]
fn without_tail_call_a_cell_outside_the_callers_memory_keeps_the_flip() {
    let mut frame = Frame::enter(caller(), storage_with_flag(false));
    assert_eq!(frame.load(77), Some(vec![1, 2, 3]));
    let outcome = frame.delegate_invoke(&runtime(), &invocation("flip", false));
    assert_eq!(outcome, CallOutcome::Success(vec![]));
    let after = frame.complete();
    assert_eq!(after.get(ROOT_KEY), Some(vec![1]));
    assert_eq!(after.get(77), Some(vec![1, 2, 3]));
}

#[test]
fn without_tail_call_a_later_write_of_the_caller_persists() {
    let mut frame = Frame::enter(caller(), storage_with_flag(false));
    assert_eq!(frame.load(ROOT_KEY), Some(vec![0]));
    frame.delegate_invoke(&runtime(), &invocation("flip", false));
    assert_eq!(frame.write(77, vec![4]), Ok(()));
    let after = frame.complete();
    assert_eq!(after.get(ROOT_KEY), Some(vec![0]));
    assert_eq!(after.get(77), Some(vec![4]));
}

#[test]
fn with_tail_call_the_flip_persists() {
    let mut frame = Frame::enter(caller(), storage_with_flag(false));
    assert_eq!(frame.load(ROOT_KEY), Some(vec![0]));
    assert_eq!(frame.write(5, vec![9]), Ok(()));
    let outcome = frame.delegate_invoke(&runtime(), &invocation("flip", true));
    assert_eq!(outcome, CallOutcome::Success(vec![]));
    assert_eq!(frame.authority(), Authority::Delegate);
    assert!(frame.memory().agrees_with(&Storage::new()));
    let after = frame.complete();
    assert!(after.agrees_with(&storage_with_flag(true)));
}

#[test]
fn with_tail_call_a_later_write_is_refused() {
    let mut frame = Frame::enter(caller(), storage_with_flag(false));
    frame.delegate_invoke(&runtime(), &invocation("flip", true));
    assert_eq!(frame.write(ROOT_KEY, vec![0]), Err(InvokeError::ConflictingTailCallUsage));
    assert_eq!(frame.write(5, vec![9]), Err(InvokeError::ConflictingTailCallUsage));
    assert!(frame.memory().agrees_with(&Storage::new()));
    assert!(frame.complete().agrees_with(&storage_with_flag(true)));
}

#[test]
fn with_tail_call_a_later_load_reads_what_the_callee_left() {
    let mut frame = Frame::enter(caller(), storage_with_flag(false));
    assert_eq!(frame.load(ROOT_KEY), Some(vec![0]));
    frame.delegate_invoke(&runtime(), &invocation("flip", true));
    assert_eq!(frame.load(ROOT_KEY), Some(vec![1]));
    assert_eq!(frame.load(5), None);
    assert!(frame.memory().agrees_with(&Storage::new()));
}

#[test]
fn missing_code_is_reported_and_changes_nothing() {
    for tail_call in [false, true] {
        let before = storage_with_flag(false);
        let mut frame = Frame::enter(caller(), before.clone());
        assert_eq!(frame.load(ROOT_KEY), Some(vec![0]));
        let mut request = invocation("flip", tail_call);
        request.code = CodeReference::new([0xc1; 32]);
        let outcome = frame.delegate_invoke(&runtime(), &request);
        assert_eq!(outcome, CallOutcome::Failure(InvokeError::CodeNotFound));
        assert_eq!(frame.authority(), Authority::Caller);
        assert!(frame.persisted().agrees_with(&before));
        assert_eq!(frame.memory().get(ROOT_KEY), Some(vec![0]));
        let again = frame.delegate_invoke(&runtime(), &request);
        assert_eq!(again, CallOutcome::Failure(InvokeError::CodeNotFound));
        assert_eq!(frame.write(5, vec![1]), Ok(()));
        assert_eq!(frame.complete().get(5), Some(vec![1]));
    }
}

#[test]
fn unknown_selector_is_reported_and_changes_nothing() {
    for tail_call in [false, true] {
        let before = storage_with_flag(true);
        let mut frame = Frame::enter(caller(), before.clone());
        let outcome = frame.delegate_invoke(&runtime(), &invocation("flop", tail_call));
        assert_eq!(outcome, CallOutcome::Failure(InvokeError::EntryPointNotFound));
        assert_eq!(frame.authority(), Authority::Caller);
        assert!(frame.memory().agrees_with(&Storage::new()));
        assert!(frame.complete().agrees_with(&before));
    }
}

#[test]
fn excess_weight_is_reported_and_changes_nothing() {
    let mut tight = Runtime::new(9);
    tight.upload(OtherContract::code(code(), 10));
    let before = storage_with_flag(true);
    let mut frame = Frame::enter(caller(), before.clone());
    let outcome = frame.delegate_invoke(&tight, &invocation("flip", true));
    assert_eq!(outcome, CallOutcome::Failure(InvokeError::ResourceLimitExceeded));
    assert_eq!(frame.authority(), Authority::Caller);
    assert!(frame.complete().agrees_with(&before));
}

#[test]
fn delegated_code_runs_under_the_callers_identity() {
    let mut frame = Frame::enter(caller(), storage_with_flag(true));
    let outcome = frame.delegate_invoke(&runtime(), &invocation("get_account_id", false));
    assert_eq!(outcome, CallOutcome::Success(caller().to_bytes().to_vec()));
}

#[test]
fn delegated_code_reads_the_callers_storage() {
    let mut frame = Frame::enter(caller(), storage_with_flag(true));
    let outcome = frame.delegate_invoke(&runtime(), &invocation("get", false));
    assert_eq!(outcome, CallOutcome::Success(vec![1]));
}

#[test]
fn delegated_set_stores_its_argument_in_the_callers_storage() {
    let mut frame = Frame::enter(caller(), storage_with_flag(false));
    let mut request = invocation("set", true);
    request.input = vec![1];
    assert_eq!(frame.delegate_invoke(&runtime(), &request), CallOutcome::Success(vec![]));
    assert_eq!(frame.complete().get(ROOT_KEY), Some(vec![1]));
}

#[test]
fn after_a_failed_invocation_the_caller_may_abort_or_go_on() {
    let before = storage_with_flag(false);
    let mut request = invocation("flip", false);
    request.code = CodeReference::new([0xc1; 32]);

    let mut aborting = Frame::enter(caller(), before.clone());
    assert_eq!(aborting.write(5, vec![9]), Ok(()));
    assert!(!aborting.delegate_invoke(&runtime(), &request).is_success());
    assert!(aborting.abort().agrees_with(&before));

    let mut going_on = Frame::enter(caller(), before.clone());
    assert_eq!(going_on.write(5, vec![9]), Ok(()));
    assert!(!going_on.delegate_invoke(&runtime(), &request).is_success());
    let after = going_on.complete();
    assert_eq!(after.get(5), Some(vec![9]));
    assert_eq!(after.get(ROOT_KEY), Some(vec![0]));
}

#[test]
fn second_invocation_after_a_tail_call_still_runs_against_the_storage() {
    let mut frame = Frame::enter(caller(), storage_with_flag(false));
    assert!(frame.delegate_invoke(&runtime(), &invocation("flip", true)).is_success());
    assert_eq!(
        frame.delegate_invoke(&runtime(), &invocation("get", false)),
        CallOutcome::Success(vec![1])
    );
    assert_eq!(frame.authority(), Authority::Delegate);
    assert!(frame.delegate_invoke(&runtime(), &invocation("flip", false)).is_success());
    assert_eq!(frame.complete().get(ROOT_KEY), Some(vec![0]));
}
