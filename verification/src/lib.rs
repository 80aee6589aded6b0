//! A model of delegate invocation between contracts.
//!
//! A contract that delegates runs foreign code against its own storage and
//! under its own identity. The crate holds the data of such an invocation
//! (code references, selectors, flags, outcomes), an in-memory runtime that
//! dispatches it, the bookkeeping of an execution frame that decides whose
//! writes persist, and the two contracts that exercise it: a flipper that
//! delegates, and the contract whose code it delegates to.

pub mod bytes;
pub mod flipper;
pub mod frame;
pub mod host;
pub mod invocation;
pub mod laws;
pub mod lookup;
pub mod other_contract;
pub mod reference;
pub mod runtime;
pub mod selector;
pub mod storage;

pub use reference::{AccountId, CodeReference};
pub use selector::Selector;
pub use invocation::{CallOutcome, InvocationFlags, InvocationRequest, InvokeError};
pub use other_contract::{Message, OtherContract};
pub use storage::{Storage, ROOT_KEY};
pub use runtime::{Binding, CodeUnit, Runtime};
pub use frame::{Authority, Frame};
pub use flipper::{CrossContractFlipper, DELEGATE_TO_KEY};
