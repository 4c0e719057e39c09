//! [`Split`] [`Strategy`] definition.

use std::marker::PhantomData;

use vstd::prelude::*;

use super::super::super::Returning;
use super::Strategy;

verus! {

/// [`Strategy`] for splitting a single event into multiple ones. Implement
/// [`Splitter`] to define the splitting logic.
#[derive(Copy, Debug)]
pub struct Split<Into>(PhantomData<Into>);

impl<Into> Clone for Split<Into> {
    fn clone(&self) -> Self {
        Split(PhantomData)
    }
}

/// Splits a single event into multiple ones for the [`Split`] [`Strategy`].
pub trait Splitter<From, Into> {
    /// Whether `parts` is what `event` may be split into.
    spec fn splits(&self, event: From, parts: Seq<Into>) -> bool;

    /// Splits the `event`.
    fn split(&self, event: From) -> (res: Vec<Into>)
        ensures
            self.splits(event, res@),
    ;
}

/// Every one of the `parts` as a successful output.
pub open spec fn all_ok<T, E>(parts: Seq<T>) -> Seq<Result<T, E>> {
    parts.map_values(|p: T| Ok(p))
}

/// What the [`Split`] strategy may produce: the parts the [`Splitter`] may
/// produce, each as a successful output, in the splitter's order.
pub proof fn lemma_split_outputs<Adapter: Splitter<Event, IntoEvent> + Returning, Event, IntoEvent, Ctx: ?Sized>(
    adapter: &Adapter,
    event: Event,
    context: &Ctx,
    out: Seq<Result<IntoEvent, Adapter::Error>>,
)
    requires
        <Split<IntoEvent> as Strategy<Adapter, Event, Ctx>>::transforms(adapter, event, context, out),
    ensures
        exists|parts: Seq<IntoEvent>|
            {
                &&& adapter.splits(event, parts)
                &&& out.len() == parts.len()
                &&& forall|i: int| 0 <= i < parts.len() ==> #[trigger] out[i] == Ok::<IntoEvent, Adapter::Error>(parts[i])
            },
{
    let parts = choose|parts: Seq<IntoEvent>|
        adapter.splits(event, parts) && out == all_ok::<IntoEvent, Adapter::Error>(parts);
    assert(out.len() == parts.len());
}

/// Wraps each of the `parts` into [`Ok`].
pub(crate) fn wrap_ok<T, E>(parts: Vec<T>) -> (res: Vec<Result<T, E>>)
    ensures
        res@ == all_ok::<T, E>(parts@),
{
    let mut parts = parts;
    let ghost all = parts@;
    let mut res: Vec<Result<T, E>> = Vec::new();
    while parts.len() > 0
        invariant
            res@.len() + parts@.len() == all.len(),
            parts@ == all.skip(res@.len() as int),
            res@ == all_ok::<T, E>(all.take(res@.len() as int)),
        decreases parts@.len(),
    {
        let ghost n = res@.len() as int;
        let p = parts.remove(0);
        res.push(Ok(p));
        proof {
            assert(all.take(n + 1) =~= all.take(n).push(all[n]));
            assert(parts@ =~= all.skip(n + 1));
            assert(res@ =~= all_ok::<T, E>(all.take(n + 1)));
        }
    }
    proof {
        assert(all.take(res@.len() as int) =~= all);
    }
    res
}

impl<Adapter, Event, IntoEvent, Ctx: ?Sized> Strategy<Adapter, Event, Ctx> for Split<IntoEvent> where
    Adapter: Splitter<Event, IntoEvent> + Returning,
 {
    type Error = Adapter::Error;

    type Transformed = IntoEvent;

    /// The parts the [`Splitter`] may produce, each as a successful output.
    open spec fn transforms(
        adapter: &Adapter,
        event: Event,
        context: &Ctx,
        out: Seq<Result<Self::Transformed, Self::Error>>,
    ) -> bool {
        exists|parts: Seq<IntoEvent>| adapter.splits(event, parts) && out == all_ok::<IntoEvent, Adapter::Error>(parts)
    }

    fn transform(adapter: &Adapter, event: Event, context: &Ctx) -> (res: Vec<
        Result<Self::Transformed, Self::Error>,
    >)
        ensures
            exists|parts: Seq<IntoEvent>|
                {
                    &&& adapter.splits(event, parts)
                    &&& res@.len() == parts.len()
                    &&& forall|i: int| 0 <= i < parts.len() ==> #[trigger] res@[i] == Ok::<IntoEvent, Adapter::Error>(parts[i])
                },
    {
        let parts = adapter.split(event);
        let res = wrap_ok(parts);
        proof {
            let w = parts@;
            assert(adapter.splits(event, w) && res@ == all_ok::<IntoEvent, Adapter::Error>(w));
        }
        res
    }
}

} // verus!
