//! Supervision of a single bundled backend process.
//!
//! The library has two parts. The supervisor guards the invariant that at
//! most one backend runs at a time: it holds at most one handle to the task
//! that relays the running backend's events, and exposes the guarded start
//! and stop operations. The relay is the state machine that consumes the
//! backend's lifecycle events, logs every event, and forwards errors and the
//! termination to the UI layer as notifications.
//!
//! Spawning the backend, cancelling the relay task and delivering the
//! notifications are the embedding application's work; the library decides,
//! for every state and event, what is to be done and what is to be reported.

pub mod relay;
pub mod supervisor;
