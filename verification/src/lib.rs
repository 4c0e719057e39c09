//! Event sourcing building blocks with verified contracts.

pub mod codegen;
pub mod es;
pub mod event;
pub mod spell;

pub use self::event::{
    Event, Initial as InitialEvent, Initialized as EventInitialized, Sourced as EventSourced,
    Versioned as VersionedEvent,
};
