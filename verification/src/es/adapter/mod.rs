//! Event adapters built from a [`Strategy`] per versioned event, through the
//! [`Wrapper`] of the adapter.

pub mod transformer;

use vstd::prelude::*;

pub use self::transformer::{strategy, Strategy, Transformer, WithStrategy};

verus! {

/// Specifies the result of an adapter.
pub trait Returning {
    /// Error of this adapter.
    type Error;

    /// Converted event.
    type Transformed;
}

/// Wrapper type for an adapter, carrying the [`Transformer`] impls so that
/// they may be generated for events without breaking orphan rules.
#[derive(Debug)]
pub struct Wrapper<A>(pub A);

impl<A: Returning> Returning for Wrapper<A> {
    type Error = A::Error;

    type Transformed = A::Transformed;
}

} // verus!
