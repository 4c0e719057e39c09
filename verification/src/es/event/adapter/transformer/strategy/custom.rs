//! [`Custom`] [`Strategy`] definition.

use vstd::prelude::*;

use super::Strategy;

verus! {

/// [`Strategy`] for some custom conversion provided by [`Customize`].
///
/// Use it in case the [`Customize`] impl isn't going to be reused; otherwise
/// implement [`Strategy`] on a custom type.
#[derive(Clone, Copy, Debug)]
pub struct Custom;

/// Converts an `Event` into [`Transformed`] ones for the [`Custom`]
/// [`Strategy`].
///
/// [`Transformed`]: Self::Transformed
pub trait Customize<Event, Ctx: ?Sized> {
    /// Error of this [`Strategy`].
    type Error;

    /// Converted `Event`.
    type Transformed;

    /// Whether `out` is what `event` may be converted into.
    spec fn customizes(
        &self,
        event: Event,
        context: &Ctx,
        out: Seq<Result<Self::Transformed, Self::Error>>,
    ) -> bool;

    /// Converts the incoming `event` into [`Transformed`] ones.
    ///
    /// [`Transformed`]: Self::Transformed
    fn transform(&self, event: Event, context: &Ctx) -> (res: Vec<
        Result<Self::Transformed, Self::Error>,
    >)
        ensures
            self.customizes(event, context, res@),
    ;
}

impl<Adapter, Event, Ctx: ?Sized> Strategy<Adapter, Event, Ctx> for Custom where
    Adapter: Customize<Event, Ctx>,
 {
    type Error = Adapter::Error;

    type Transformed = Adapter::Transformed;

    /// Exactly what the [`Customize`] impl may produce.
    open spec fn transforms(
        adapter: &Adapter,
        event: Event,
        context: &Ctx,
        out: Seq<Result<Self::Transformed, Self::Error>>,
    ) -> bool {
        adapter.customizes(event, context, out)
    }

    fn transform(adapter: &Adapter, event: Event, context: &Ctx) -> (res: Vec<
        Result<Self::Transformed, Self::Error>,
    >) {
        adapter.transform(event, context)
    }
}

} // verus!
