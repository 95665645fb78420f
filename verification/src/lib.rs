//! Verified core of the Coomi engine: text helpers, the input queue, the
//! cognitive sidecar protocol, the Runtime V2 state machine and command
//! builders, process limits and the local web bridge's decisions.
pub mod bridge;
pub mod cognitive;
pub mod env;
pub mod ids;
pub mod input_queue;
pub mod observer;
pub mod order;
pub mod processes;
pub mod providers;
pub mod runtime;
pub mod session;
pub mod strmap;
pub mod text;
