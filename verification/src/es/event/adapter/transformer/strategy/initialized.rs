//! [`Initialized`] [`Strategy`] definition.

use std::marker::PhantomData;

use vstd::prelude::*;

use crate::es::event::Initial;

use super::{AsIs, Strategy};

verus! {

/// [`Strategy`] for wrapping events into [`Initial`].
#[derive(Debug)]
pub struct Initialized<InnerStrategy = AsIs>(PhantomData<InnerStrategy>);

impl<InnerStrategy> Clone for Initialized<InnerStrategy> {
    fn clone(&self) -> Self {
        Initialized(PhantomData)
    }
}

/// The outputs in `inner`, each [`Ok`] one wrapped into [`Initial`].
pub open spec fn initial_all<T, E>(inner: Seq<Result<T, E>>) -> Seq<Result<Initial<T>, E>> {
    inner.map_values(
        |r: Result<T, E>|
            match r {
                Ok(ev) => Ok(Initial(ev)),
                Err(e) => Err(e),
            },
    )
}

/// Wraps every successfully converted event of `inner` into [`Initial`].
pub(crate) fn wrap_initial<T, E>(inner: Vec<Result<T, E>>) -> (res: Vec<Result<Initial<T>, E>>)
    ensures
        res@ == initial_all(inner@),
{
    let mut inner = inner;
    let ghost all = inner@;
    let mut res: Vec<Result<Initial<T>, E>> = Vec::new();
    while inner.len() > 0
        invariant
            res@.len() + inner@.len() == all.len(),
            inner@ == all.skip(res@.len() as int),
            res@ == initial_all(all.take(res@.len() as int)),
        decreases inner@.len(),
    {
        let ghost n = res@.len() as int;
        let r = inner.remove(0);
        res.push(
            match r {
                Ok(ev) => Ok(Initial(ev)),
                Err(e) => Err(e),
            },
        );
        proof {
            assert(all.take(n + 1) =~= all.take(n).push(all[n]));
            assert(inner@ =~= all.skip(n + 1));
            assert(res@ =~= initial_all(all.take(n + 1)));
        }
    }
    proof {
        assert(all.take(res@.len() as int) =~= all);
    }
    res
}

/// What the [`Initialized`] strategy may produce: the inner strategy's
/// outputs, one for one and in their order, each successful one wrapped into
/// [`Initial`] and each error kept as it is.
pub proof fn lemma_initialized_outputs<Adapter, Event, InnerStrategy, Ctx: ?Sized>(
    adapter: &Adapter,
    event: Event,
    context: &Ctx,
    out: Seq<Result<Initial<InnerStrategy::Transformed>, InnerStrategy::Error>>,
) where InnerStrategy: Strategy<Adapter, Event, Ctx>
    requires
        <Initialized<InnerStrategy> as Strategy<Adapter, Event, Ctx>>::transforms(
            adapter,
            event,
            context,
            out,
        ),
    ensures
        exists|inner: Seq<Result<InnerStrategy::Transformed, InnerStrategy::Error>>|
            {
                &&& InnerStrategy::transforms(adapter, event, context, inner)
                &&& out.len() == inner.len()
                &&& forall|i: int|
                    #![trigger inner[i]]
                    0 <= i < inner.len() ==> match inner[i] {
                        Ok(ev) => out[i] == Ok::<_, InnerStrategy::Error>(Initial(ev)),
                        Err(e) => out[i] == Err::<Initial<InnerStrategy::Transformed>, _>(e),
                    }
            },
{
    let inner = choose|inner: Seq<Result<InnerStrategy::Transformed, InnerStrategy::Error>>|
        InnerStrategy::transforms(adapter, event, context, inner) && out == initial_all(inner);
    assert(out.len() == inner.len());
}

impl<Adapter, Event, InnerStrategy, Ctx: ?Sized> Strategy<Adapter, Event, Ctx> for Initialized<
    InnerStrategy,
> where InnerStrategy: Strategy<Adapter, Event, Ctx> {
    type Error = InnerStrategy::Error;

    type Transformed = Initial<InnerStrategy::Transformed>;

    /// What the inner [`Strategy`] may produce, wrapped into [`Initial`].
    open spec fn transforms(
        adapter: &Adapter,
        event: Event,
        context: &Ctx,
        out: Seq<Result<Self::Transformed, Self::Error>>,
    ) -> bool {
        exists|inner: Seq<Result<InnerStrategy::Transformed, InnerStrategy::Error>>|
            InnerStrategy::transforms(adapter, event, context, inner) && out == initial_all(inner)
    }

    fn transform(adapter: &Adapter, event: Event, context: &Ctx) -> (res: Vec<
        Result<Self::Transformed, Self::Error>,
    >)
        ensures
            exists|inner: Seq<Result<InnerStrategy::Transformed, InnerStrategy::Error>>|
                {
                    &&& InnerStrategy::transforms(adapter, event, context, inner)
                    &&& res@.len() == inner.len()
                    &&& forall|i: int|
                        #![trigger inner[i]]
                        0 <= i < inner.len() ==> match inner[i] {
                            Ok(ev) => res@[i] == Ok::<_, InnerStrategy::Error>(Initial(ev)),
                            Err(e) => res@[i] == Err::<Initial<InnerStrategy::Transformed>, _>(e),
                        }
                },
    {
        let inner = InnerStrategy::transform(adapter, event, context);
        let res = wrap_initial(inner);
        proof {
            let w = inner@;
            assert(InnerStrategy::transforms(adapter, event, context, w) && res@ == initial_all(w));
            lemma_initialized_outputs::<Adapter, Event, InnerStrategy, Ctx>(adapter, event, context, res@);
        }
        res
    }
}

} // verus!
