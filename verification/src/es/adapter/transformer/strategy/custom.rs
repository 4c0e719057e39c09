//! [`Custom`] [`Strategy`] definition, with the context chosen by the
//! [`Customize`] impl.

use vstd::prelude::*;

use super::Strategy;

verus! {

/// [`Strategy`] for some custom conversion provided by [`Customize`].
#[derive(Clone, Copy, Debug)]
pub struct Custom;

/// Converts an `Event` into [`Transformed`] ones for the [`Custom`]
/// [`Strategy`], within its own [`Context`].
///
/// [`Context`]: Self::Context
/// [`Transformed`]: Self::Transformed
pub trait Customize<Event> {
    /// Context of the conversion.
    type Context: ?Sized;

    /// Error of this [`Strategy`].
    type Error;

    /// Converted `Event`.
    type Transformed;

    /// Whether `out` is what `event` may be converted into.
    spec fn customizes(
        &self,
        event: Event,
        context: &Self::Context,
        out: Seq<Result<Self::Transformed, Self::Error>>,
    ) -> bool;

    /// Converts the incoming `event` into [`Transformed`] ones.
    ///
    /// [`Transformed`]: Self::Transformed
    fn transform(&self, event: Event, context: &Self::Context) -> (res: Vec<
        Result<Self::Transformed, Self::Error>,
    >)
        ensures
            self.customizes(event, context, res@),
    ;
}

impl<Adapter, Event> Strategy<Adapter, Event, Adapter::Context> for Custom where
    Adapter: Customize<Event>,
 {
    type Error = Adapter::Error;

    type Transformed = Adapter::Transformed;

    /// Exactly what the [`Customize`] impl may produce.
    open spec fn transforms(
        adapter: &Adapter,
        event: Event,
        context: &Adapter::Context,
        out: Seq<Result<Self::Transformed, Self::Error>>,
    ) -> bool {
        adapter.customizes(event, context, out)
    }

    fn transform(adapter: &Adapter, event: Event, context: &Adapter::Context) -> (res: Vec<
        Result<Self::Transformed, Self::Error>,
    >) {
        adapter.transform(event, context)
    }
}

} // verus!
