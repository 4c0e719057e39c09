//! [`Skip`] [`Strategy`] definition.

use vstd::prelude::*;

use super::super::super::Returning;
use super::Strategy;

verus! {

/// [`Strategy`] for skipping events.
#[derive(Clone, Copy, Debug)]
pub struct Skip;

impl<Adapter: Returning, Event, Ctx: ?Sized> Strategy<Adapter, Event, Ctx> for Skip {
    type Error = Adapter::Error;

    type Transformed = Adapter::Transformed;

    /// A skipped event produces nothing.
    open spec fn transforms(
        adapter: &Adapter,
        event: Event,
        context: &Ctx,
        out: Seq<Result<Self::Transformed, Self::Error>>,
    ) -> bool {
        out.len() == 0
    }

    fn transform(adapter: &Adapter, event: Event, context: &Ctx) -> (res: Vec<
        Result<Self::Transformed, Self::Error>,
    >) {
        Vec::new()
    }
}

} // verus!
