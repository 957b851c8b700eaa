//! Verified core of a desktop shell that embeds a natively compiled
//! backend library.
//!
//! The crate covers the decision logic of the native build step, the
//! binding of the backend's one exported symbol, the event dispatch
//! bridge that routes named UI events to registered handlers, and the
//! synchronous command surface. Process spawning and the windowing
//! stack stay outside; they hand plain values in and take plain values
//! back.

pub mod bridge;
pub mod command;
pub mod ffi;
pub mod numeral;
pub mod orchestrator;
pub mod text;
