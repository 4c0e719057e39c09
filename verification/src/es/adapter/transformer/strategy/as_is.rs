//! [`AsIs`] [`Strategy`] definition, failing with the adapter's error.

use vstd::prelude::*;

use super::super::super::Returning;
use super::Strategy;

verus! {

/// [`Strategy`] for passing events as is, without any conversions.
#[derive(Clone, Copy, Debug)]
pub struct AsIs;

impl<Adapter: Returning, Event, Ctx: ?Sized> Strategy<Adapter, Event, Ctx> for AsIs {
    type Error = Adapter::Error;

    type Transformed = Event;

    /// The event itself is the only output.
    open spec fn transforms(
        adapter: &Adapter,
        event: Event,
        context: &Ctx,
        out: Seq<Result<Self::Transformed, Self::Error>>,
    ) -> bool {
        out == seq![Ok::<Event, Adapter::Error>(event)]
    }

    fn transform(adapter: &Adapter, event: Event, context: &Ctx) -> (res: Vec<
        Result<Self::Transformed, Self::Error>,
    >) {
        let mut res = Vec::new();
        res.push(Ok(event));
        res
    }
}

} // verus!
