//! [`Skip`] [`Strategy`] definition, needing no context.

use vstd::prelude::*;

use super::super::super::Returning;
use super::Strategy;

verus! {

/// [`Strategy`] for skipping events.
#[derive(Clone, Copy, Debug)]
pub struct Skip;

impl<Adapter: Returning, Event> Strategy<Adapter, Event, ()> for Skip {
    type Error = Adapter::Error;

    type Transformed = Adapter::Transformed;

    /// A skipped event produces nothing.
    open spec fn transforms(
        adapter: &Adapter,
        event: Event,
        context: &(),
        out: Seq<Result<Self::Transformed, Self::Error>>,
    ) -> bool {
        out.len() == 0
    }

    fn transform(adapter: &Adapter, event: Event, context: &()) -> (res: Vec<
        Result<Self::Transformed, Self::Error>,
    >) {
        Vec::new()
    }
}

} // verus!
