//! [`Strategy`] definition and default implementations.

pub mod as_is;
pub mod custom;
pub mod initialized;
pub mod into;
pub mod skip;
pub mod split;

use vstd::prelude::*;

use super::super::Adapted;
use super::{Adapt, Transformer};

pub use self::{
    as_is::AsIs,
    custom::{Custom, Customize},
    initialized::Initialized,
    into::Into,
    skip::Skip,
    split::{Split, Splitter},
};

verus! {

/// Generalized [`Transformer`] for versioned events.
pub trait Strategy<Adapter, Event, Ctx: ?Sized> {
    /// Error of this [`Strategy`].
    type Error;

    /// Converted [`Event`].
    ///
    /// [`Event`]: crate::es::event::Event
    type Transformed;

    /// Whether `out` is what this [`Strategy`] may convert `event` into.
    spec fn transforms(
        adapter: &Adapter,
        event: Event,
        context: &Ctx,
        out: Seq<Result<Self::Transformed, Self::Error>>,
    ) -> bool;

    /// Converts the incoming `event` into [`Transformed`] ones.
    ///
    /// [`Transformed`]: Self::Transformed
    fn transform(adapter: &Adapter, event: Event, context: &Ctx) -> (res: Vec<
        Result<Self::Transformed, Self::Error>,
    >)
        ensures
            Self::transforms(adapter, event, context, res@),
    ;
}

impl<'a, Event, Adapter, Ctx: ?Sized> Transformer<Event, Ctx> for Adapted<&'a Adapter> where
    Adapter: Adapt<Event>,
    Adapter::Strategy: Strategy<Adapter, Event, Ctx>,
 {
    type Error = <Adapter::Strategy as Strategy<Adapter, Event, Ctx>>::Error;

    type Transformed = <Adapter::Strategy as Strategy<Adapter, Event, Ctx>>::Transformed;

    /// Exactly what the [`Strategy`] chosen by [`Adapt`] may produce.
    open spec fn transforms(
        &self,
        event: Event,
        context: &Ctx,
        out: Seq<Result<Self::Transformed, Self::Error>>,
    ) -> bool {
        <Adapter::Strategy as Strategy<Adapter, Event, Ctx>>::transforms(
            self.0,
            event,
            context,
            out,
        )
    }

    fn transform(&self, event: Event, context: &Ctx) -> (res: Vec<
        Result<Self::Transformed, Self::Error>,
    >) {
        <Adapter::Strategy as Strategy<Adapter, Event, Ctx>>::transform(self.0, event, context)
    }
}

/// Context implemented for every type.
pub trait AnyContext {}

impl<T: ?Sized> AnyContext for T {}

} // verus!
