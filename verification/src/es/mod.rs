//! Event sourcing abstractions.

pub mod adapter;
pub mod event;

pub use self::event::{
    adapter::Adapter as EventAdapter, Event, Initialized as EventInitialized, Name as EventName,
    Sourced as EventSourced, Sourcing as EventSourcing, Version as EventVersion,
};
