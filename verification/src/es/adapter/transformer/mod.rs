//! [`Transformer`] definitions.

pub mod strategy;

use vstd::prelude::*;

pub use self::strategy::Strategy;

verus! {

/// Facility to convert events: skipping unused ones, transforming them from
/// one version to another, splitting them into more granular ones.
///
/// To reduce boilerplate consider using [`WithStrategy`] with some
/// [`Strategy`] instead of implementing this trait manually.
pub trait Transformer<Event, Ctx: ?Sized> {
    /// Error of this [`Transformer`].
    type Error;

    /// Converted event.
    type Transformed;

    /// Whether `out` is what `event` may be converted into within `context`.
    spec fn transforms(
        &self,
        event: Event,
        context: &Ctx,
        out: Seq<Result<Self::Transformed, Self::Error>>,
    ) -> bool;

    /// Converts the incoming `event` into [`Transformed`] ones.
    ///
    /// [`Transformed`]: Self::Transformed
    fn transform(&self, event: Event, context: &Ctx) -> (res: Vec<
        Result<Self::Transformed, Self::Error>,
    >)
        ensures
            self.transforms(event, context, res@),
    ;
}

/// Instead of implementing [`Transformer`] manually, you can use this trait
/// with some [`Strategy`].
pub trait WithStrategy<Event> {
    /// [`Strategy`] to transform the `Event` with.
    type Strategy;
}

} // verus!
