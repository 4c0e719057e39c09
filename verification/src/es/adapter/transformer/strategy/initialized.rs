//! [`Initialized`] [`Strategy`] definition, wrapping into [`Initial`] what an
//! inner [`Strategy`] produces.

use std::marker::PhantomData;

use vstd::prelude::*;

use crate::es::event::adapter::strategy::initialized::{initial_all, wrap_initial};
use crate::es::event::Initial;

use super::{AsIs, Strategy};

verus! {

/// [`Strategy`] for wrapping events into [`Initial`].
#[derive(Debug)]
pub struct Initialized<InnerStrategy = AsIs>(PhantomData<InnerStrategy>);

impl<InnerStrategy> Clone for Initialized<InnerStrategy> {
    fn clone(&self) -> Self {
        Initialized(PhantomData)
    }
}

/// What the [`Initialized`] strategy may produce: the inner strategy's
/// outputs, one for one and in their order, each successful one wrapped into
/// [`Initial`] and each error kept as it is.
pub proof fn lemma_initialized_outputs<Adapter, Event, InnerStrategy, Ctx: ?Sized>(
    adapter: &Adapter,
    event: Event,
    context: &Ctx,
    out: Seq<Result<Initial<InnerStrategy::Transformed>, InnerStrategy::Error>>,
) where InnerStrategy: Strategy<Adapter, Event, Ctx>
    requires
        <Initialized<InnerStrategy> as Strategy<Adapter, Event, Ctx>>::transforms(
            adapter,
            event,
            context,
            out,
        ),
    ensures
        exists|inner: Seq<Result<InnerStrategy::Transformed, InnerStrategy::Error>>|
            {
                &&& InnerStrategy::transforms(adapter, event, context, inner)
                &&& out.len() == inner.len()
                &&& forall|i: int|
                    #![trigger inner[i]]
                    0 <= i < inner.len() ==> match inner[i] {
                        Ok(ev) => out[i] == Ok::<_, InnerStrategy::Error>(Initial(ev)),
                        Err(e) => out[i] == Err::<Initial<InnerStrategy::Transformed>, _>(e),
                    }
            },
{
    let inner = choose|inner: Seq<Result<InnerStrategy::Transformed, InnerStrategy::Error>>|
        InnerStrategy::transforms(adapter, event, context, inner) && out == initial_all(inner);
    assert(out.len() == inner.len());
}

impl<Adapter, Event, InnerStrategy, Ctx: ?Sized> Strategy<Adapter, Event, Ctx> for Initialized<
    InnerStrategy,
> where InnerStrategy: Strategy<Adapter, Event, Ctx> {
    type Error = InnerStrategy::Error;

    type Transformed = Initial<InnerStrategy::Transformed>;

    /// What the inner [`Strategy`] may produce, wrapped into [`Initial`].
    open spec fn transforms(
        adapter: &Adapter,
        event: Event,
        context: &Ctx,
        out: Seq<Result<Self::Transformed, Self::Error>>,
    ) -> bool {
        exists|inner: Seq<Result<InnerStrategy::Transformed, InnerStrategy::Error>>|
            InnerStrategy::transforms(adapter, event, context, inner) && out == initial_all(inner)
    }

    fn transform(adapter: &Adapter, event: Event, context: &Ctx) -> (res: Vec<
        Result<Self::Transformed, Self::Error>,
    >)
        ensures
            exists|inner: Seq<Result<InnerStrategy::Transformed, InnerStrategy::Error>>|
                {
                    &&& InnerStrategy::transforms(adapter, event, context, inner)
                    &&& res@.len() == inner.len()
                    &&& forall|i: int|
                        #![trigger inner[i]]
                        0 <= i < inner.len() ==> match inner[i] {
                            Ok(ev) => res@[i] == Ok::<_, InnerStrategy::Error>(Initial(ev)),
                            Err(e) => res@[i] == Err::<Initial<InnerStrategy::Transformed>, _>(e),
                        }
                },
    {
        let inner = InnerStrategy::transform(adapter, event, context);
        let res = wrap_initial(inner);
        proof {
            let w = inner@;
            assert(InnerStrategy::transforms(adapter, event, context, w) && res@ == initial_all(w));
            lemma_initialized_outputs::<Adapter, Event, InnerStrategy, Ctx>(adapter, event, context, res@);
        }
        res
    }
}

} // verus!
