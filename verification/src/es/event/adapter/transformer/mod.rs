//! [`Transformer`] definitions.

pub mod strategy;

use vstd::prelude::*;

pub use self::strategy::Strategy;

verus! {

/// To use an [`Adapter`] with some [`Event`], provide a [`Strategy`] for every
/// versioned event involved with this [`Event`].
///
/// [`Adapter`]: super::Adapter
/// [`Event`]: crate::es::event::Event
pub trait Adapt<Event> {
    /// [`Strategy`] to transform the `Event` with.
    type Strategy;
}

/// Facility to convert [`Event`]s: skipping unused ones, transforming them
/// from one version to another, splitting them into more granular ones.
///
/// [`Event`]: crate::es::event::Event
pub trait Transformer<Event, Ctx: ?Sized> {
    /// Error of this [`Transformer`].
    type Error;

    /// Converted [`Event`].
    ///
    /// [`Event`]: crate::es::event::Event
    type Transformed;

    /// Whether `out` is what `event` may be converted into within `context`.
    spec fn transforms(
        &self,
        event: Event,
        context: &Ctx,
        out: Seq<Result<Self::Transformed, Self::Error>>,
    ) -> bool;

    /// Converts the incoming `event` into [`Transformed`] ones.
    ///
    /// [`Transformed`]: Self::Transformed
    fn transform(&self, event: Event, context: &Ctx) -> (res: Vec<
        Result<Self::Transformed, Self::Error>,
    >)
        ensures
            self.transforms(event, context, res@),
    ;
}

} // verus!
