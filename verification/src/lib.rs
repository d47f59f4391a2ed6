//! The decision core of a single-threaded, completion-ring driven asynchronous
//! runtime, together with the HTTP/1.1 framing rules of the server built on it.
//!
//! Nothing in this crate performs I/O. Each component is a state machine over
//! plain values: the embedding program performs the kernel work and the polling
//! of user computations, and reports what happened.
pub mod connection;
pub mod dispatch;
pub mod executor;
pub mod reactor;
pub mod runtime;
pub mod syscall;
pub mod wire;
