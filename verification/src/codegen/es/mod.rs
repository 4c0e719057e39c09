//! Validation of the `#[derive]` inputs of event sourcing macros.

pub mod event;
pub mod typed;
