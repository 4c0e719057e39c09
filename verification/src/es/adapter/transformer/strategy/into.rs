//! [`Into`] [`Strategy`] definition, converting with [`From`] what an inner
//! [`Strategy`] produces.

use std::marker::PhantomData;

use vstd::prelude::*;

use crate::es::event::adapter::strategy::into::{convert_all, converted, converted_all};

use super::{AsIs, Strategy};

verus! {

/// [`Strategy`] for converting events using a [`From`] impl.
#[derive(Copy, Debug)]
pub struct Into<I, InnerStrategy = AsIs>(PhantomData<(I, InnerStrategy)>);

impl<I, InnerStrategy> Clone for Into<I, InnerStrategy> {
    fn clone(&self) -> Self {
        Into(PhantomData)
    }
}

/// What the [`Into`] strategy may produce: the inner strategy's outputs, one
/// for one and in their order, each successful one converted with [`From`] and
/// each error kept as it is.
pub proof fn lemma_into_outputs<Adapter, Event, IntoEvent, InnerStrategy, Ctx: ?Sized>(
    adapter: &Adapter,
    event: Event,
    context: &Ctx,
    out: Seq<Result<IntoEvent, InnerStrategy::Error>>,
) where
    InnerStrategy: Strategy<Adapter, Event, Ctx>,
    IntoEvent: From<InnerStrategy::Transformed>,

    requires
        <Into<IntoEvent, InnerStrategy> as Strategy<Adapter, Event, Ctx>>::transforms(
            adapter,
            event,
            context,
            out,
        ),
    ensures
        exists|inner: Seq<Result<InnerStrategy::Transformed, InnerStrategy::Error>>|
            {
                &&& InnerStrategy::transforms(adapter, event, context, inner)
                &&& out.len() == inner.len()
                &&& forall|i: int|
                    #![trigger inner[i]]
                    0 <= i < inner.len() ==> match inner[i] {
                        Ok(ev) => out[i] is Ok && call_ensures(IntoEvent::from, (ev,), out[i]->Ok_0),
                        Err(e) => out[i] == Err::<IntoEvent, _>(e),
                    }
            },
{
    let inner = choose|inner: Seq<Result<InnerStrategy::Transformed, InnerStrategy::Error>>|
        InnerStrategy::transforms(adapter, event, context, inner) && converted_all(inner, out);
    assert forall|i: int| #![trigger inner[i]] 0 <= i < inner.len() implies match inner[i] {
        Ok(ev) => out[i] is Ok && call_ensures(IntoEvent::from, (ev,), out[i]->Ok_0),
        Err(e) => out[i] == Err::<IntoEvent, _>(e),
    } by {
        assert(converted(inner[i], out[i]));
    }
}

impl<Adapter, Event, IntoEvent, InnerStrategy, Ctx: ?Sized> Strategy<Adapter, Event, Ctx> for Into<
    IntoEvent,
    InnerStrategy,
> where
    InnerStrategy: Strategy<Adapter, Event, Ctx>,
    IntoEvent: From<InnerStrategy::Transformed>,
 {
    type Error = InnerStrategy::Error;

    type Transformed = IntoEvent;

    /// What the inner [`Strategy`] may produce, converted with [`From`].
    open spec fn transforms(
        adapter: &Adapter,
        event: Event,
        context: &Ctx,
        out: Seq<Result<Self::Transformed, Self::Error>>,
    ) -> bool {
        exists|inner: Seq<Result<InnerStrategy::Transformed, InnerStrategy::Error>>|
            InnerStrategy::transforms(adapter, event, context, inner) && converted_all(inner, out)
    }

    fn transform(adapter: &Adapter, event: Event, context: &Ctx) -> (res: Vec<
        Result<Self::Transformed, Self::Error>,
    >)
        ensures
            exists|inner: Seq<Result<InnerStrategy::Transformed, InnerStrategy::Error>>|
                {
                    &&& InnerStrategy::transforms(adapter, event, context, inner)
                    &&& res@.len() == inner.len()
                    &&& forall|i: int|
                        #![trigger inner[i]]
                        0 <= i < inner.len() ==> match inner[i] {
                            Ok(ev) => res@[i] is Ok && call_ensures(IntoEvent::from, (ev,), res@[i]->Ok_0),
                            Err(e) => res@[i] == Err::<IntoEvent, _>(e),
                        }
                },
    {
        let inner = InnerStrategy::transform(adapter, event, context);
        let res = convert_all(inner);
        proof {
            let w = inner@;
            assert(InnerStrategy::transforms(adapter, event, context, w) && converted_all(w, res@));
            lemma_into_outputs::<Adapter, Event, IntoEvent, InnerStrategy, Ctx>(adapter, event, context, res@);
        }
        res
    }
}

} // verus!
