//! Code generation: validation of `#[derive]` inputs and compile time checks
//! of the generated code.

pub mod args;
pub mod common;
pub mod error;
pub mod es;
pub mod event;
pub mod input;
pub mod legacy;
pub mod unique_events;
