use cross_contract_flipper::invocation::{CallOutcome, InvocationFlags, InvocationRequest, InvokeError};
use cross_contract_flipper::other_contract::{Message, OtherContract};
use cross_contract_flipper::reference::{AccountId, CodeReference};
use cross_contract_flipper::runtime::{Binding, CodeUnit, Runtime};
use cross_contract_flipper::selector::Selector;
use cross_contract_flipper::storage::{Storage, ROOT_KEY};

fn request(code: CodeReference, name: &str, input: Vec<u8>) -> InvocationRequest {
    InvocationRequest {
        code,
        selector: Selector::from_name(name),
        input,
        flags: InvocationFlags::none(),
    }
}

#[test]
fn new_code_unit_has_no_entry_point() {
    let reference = CodeReference::new([1; 32]);
    let unit = CodeUnit::new(reference);
    assert_eq!(unit.reference(), reference);
    assert_eq!(unit.resolve(&Selector::from_name("flip")), None);
}

#[test]
fn bound_selector_resolves_to_its_binding() {
    let mut unit = CodeUnit::new(CodeReference::new([1; 32]));
    unit.bind(Selector::new([1, 1, 1, 1]), Message::Get, 4);
    unit.bind(Selector::new([2, 2, 2, 2]), Message::Flip, 5);
    assert_eq!(
        unit.resolve(&Selector::new([1, 1, 1, 1])),
        Some(Binding { message: Message::Get, weight: 4 })
    );
    assert_eq!(
        unit.resolve(&Selector::new([2, 2, 2, 2])),
        Some(Binding { message: Message::Flip, weight: 5 })
    );
    assert_eq!(unit.resolve(&Selector::new([2, 2, 2, 1])), None);
}

#[test]
fn binding_a_selector_again_replaces_the_binding() {
    let mut unit = CodeUnit::new(CodeReference::new([1; 32]));
    unit.bind(Selector::new([1, 1, 1, 1]), Message::Get, 4);
    unit.bind(Selector::new([2, 2, 2, 2]), Message::Flip, 5);
    unit.bind(Selector::new([1, 1, 1, 1]), Message::Assign, 6);
    assert_eq!(
        unit.resolve(&Selector::new([1, 1, 1, 1])),
        Some(Binding { message: Message::Assign, weight: 6 })
    );
    assert_eq!(
        unit.resolve(&Selector::new([2, 2, 2, 2])),
        Some(Binding { message: Message::Flip, weight: 5 })
    );
}

#[test]
fn new_runtime_holds_no_code() {
    let runtime = Runtime::new(10);
    assert!(!runtime.has_code(&CodeReference::new([0; 32])));
    assert!(!runtime.has_code(&CodeReference::new([1; 32])));
}

#[test]
fn uploaded_code_is_held_under_its_reference() {
    let mut runtime = Runtime::new(10);
    runtime.upload(OtherContract::code(CodeReference::new([1; 32]), 1));
    runtime.upload(CodeUnit::new(CodeReference::new([2; 32])));
    assert!(runtime.has_code(&CodeReference::new([1; 32])));
    assert!(runtime.has_code(&CodeReference::new([2; 32])));
    assert!(!runtime.has_code(&CodeReference::new([3; 32])));
}

#[test]
fn dispatch_of_missing_code_fails_and_writes_nothing() {
    let mut runtime = Runtime::new(10);
    runtime.upload(OtherContract::code(CodeReference::new([1; 32]), 1));
    let mut storage = Storage::new();
    storage.set(ROOT_KEY, vec![0]);
    let before = storage.clone();
    let outcome = runtime.dispatch(
        &request(CodeReference::new([2; 32]), "flip", vec![]),
        &AccountId::new([9; 32]),
        &mut storage,
    );
    assert_eq!(outcome, CallOutcome::Failure(InvokeError::CodeNotFound));
    assert!(!outcome.is_success());
    assert!(storage.agrees_with(&before));
}

#[test]
fn dispatch_of_unknown_selector_fails_and_writes_nothing() {
    let code = CodeReference::new([1; 32]);
    let mut runtime = Runtime::new(10);
    runtime.upload(OtherContract::code(code, 1));
    let mut storage = Storage::new();
    storage.set(ROOT_KEY, vec![0]);
    let before = storage.clone();
    let outcome =
        runtime.dispatch(&request(code, "flop", vec![]), &AccountId::new([9; 32]), &mut storage);
    assert_eq!(outcome, CallOutcome::Failure(InvokeError::EntryPointNotFound));
    assert!(storage.agrees_with(&before));
}

#[test]
fn dispatch_over_the_weight_limit_fails_and_writes_nothing() {
    let code = CodeReference::new([1; 32]);
    let mut runtime = Runtime::new(10);
    runtime.upload(OtherContract::code(code, 11));
    let mut storage = Storage::new();
    storage.set(ROOT_KEY, vec![0]);
    let before = storage.clone();
    let outcome =
        runtime.dispatch(&request(code, "flip", vec![]), &AccountId::new([9; 32]), &mut storage);
    assert_eq!(outcome, CallOutcome::Failure(InvokeError::ResourceLimitExceeded));
    assert!(storage.agrees_with(&before));
}

#[test]
fn dispatch_at_the_weight_limit_runs() {
    let code = CodeReference::new([1; 32]);
    let mut runtime = Runtime::new(10);
    runtime.upload(OtherContract::code(code, 10));
    let mut storage = Storage::new();
    storage.set(ROOT_KEY, vec![0]);
    let outcome =
        runtime.dispatch(&request(code, "flip", vec![]), &AccountId::new([9; 32]), &mut storage);
    assert_eq!(outcome, CallOutcome::Success(vec![]));
    assert!(outcome.is_success());
    assert_eq!(storage.get(ROOT_KEY), Some(vec![1]));
}

#[test]
fn unknown_selector_is_reported_before_the_weight() {
    let code = CodeReference::new([1; 32]);
    let mut runtime = Runtime::new(0);
    runtime.upload(OtherContract::code(code, u64::MAX));
    let mut storage = Storage::new();
    let outcome =
        runtime.dispatch(&request(code, "flop", vec![]), &AccountId::new([9; 32]), &mut storage);
    assert_eq!(outcome, CallOutcome::Failure(InvokeError::EntryPointNotFound));
}

#[test]
fn dispatch_runs_against_the_storage_and_identity_handed_in() {
    let code = CodeReference::new([1; 32]);
    let mut runtime = Runtime::new(10);
    runtime.upload(OtherContract::code(code, 1));
    let caller = AccountId::new([9; 32]);
    let mut storage = Storage::new();
    storage.set(ROOT_KEY, vec![1]);
    assert_eq!(
        runtime.dispatch(&request(code, "get", vec![]), &caller, &mut storage),
        CallOutcome::Success(vec![1])
    );
    assert_eq!(
        runtime.dispatch(&request(code, "get_account_id", vec![]), &caller, &mut storage),
        CallOutcome::Success(vec![9; 32])
    );
    assert_eq!(
        runtime.dispatch(&request(code, "set", vec![0]), &caller, &mut storage),
        CallOutcome::Success(vec![])
    );
    assert_eq!(storage.get(ROOT_KEY), Some(vec![0]));
}

#[test]
fn uploading_under_a_held_reference_replaces_the_code() {
    let code = CodeReference::new([1; 32]);
    let mut runtime = Runtime::new(10);
    runtime.upload(OtherContract::code(code, 1));
    let mut other = CodeUnit::new(code);
    other.bind(Selector::from_name("get"), Message::Get, 1);
    runtime.upload(other);
    let mut storage = Storage::new();
    storage.set(ROOT_KEY, vec![1]);
    let caller = AccountId::new([9; 32]);
    assert_eq!(
        runtime.dispatch(&request(code, "flip", vec![]), &caller, &mut storage),
        CallOutcome::Failure(InvokeError::EntryPointNotFound)
    );
    assert_eq!(
        runtime.dispatch(&request(code, "get", vec![]), &caller, &mut storage),
        CallOutcome::Success(vec![1])
    );
}

#[test]
fn outcome_and_request_are_cloned_in_full() {
    let outcome = CallOutcome::Success(vec![1, 2, 3]);
    assert_eq!(outcome.clone(), outcome);
    let failure = CallOutcome::Failure(InvokeError::ResourceLimitExceeded);
    assert_eq!(failure.clone(), failure);
    let request = InvocationRequest {
        code: CodeReference::new([4; 32]),
        selector: Selector::new([1, 2, 3, 4]),
        input: vec![5, 6],
        flags: InvocationFlags::tail_call_only(),
    };
    assert_eq!(request.clone(), request);
}

#[test]
fn flags_have_the_named_switches() {
    let none = InvocationFlags::none();
    assert!(!none.forward_input && !none.clone_input && !none.tail_call && !none.allow_reentry);
    let tail = InvocationFlags::tail_call_only();
    assert!(!tail.forward_input && !tail.clone_input && tail.tail_call && !tail.allow_reentry);
}
