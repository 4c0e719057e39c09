//! [`Strategy`] definition and default implementations.

pub mod as_is;
pub mod custom;
pub mod initialized;
pub mod into;
pub mod skip;

use std::convert::Infallible;
use std::marker::PhantomData;

use vstd::prelude::*;

use crate::es::event::adapter::strategy::initialized::{initial_all, wrap_initial};
use crate::es::event::adapter::strategy::into::{convert_all, converted, converted_all};
use crate::es::event::adapter::strategy::split::{all_ok, wrap_ok};
use crate::es::event::Initial;

use super::super::{Returning, Wrapper};
use super::{Transformer, WithStrategy};

verus! {

/// Generalized [`Transformer`] for versioned events.
pub trait Strategy<Adapter, Event, Ctx: ?Sized> {
    /// Error of this [`Strategy`].
    type Error;

    /// Converted event.
    type Transformed;

    /// Whether `out` is what this [`Strategy`] may convert `event` into.
    spec fn transforms(
        adapter: &Adapter,
        event: Event,
        context: &Ctx,
        out: Seq<Result<Self::Transformed, Self::Error>>,
    ) -> bool;

    /// Converts the incoming `event` into [`Transformed`] ones.
    ///
    /// [`Transformed`]: Self::Transformed
    fn transform(adapter: &Adapter, event: Event, context: &Ctx) -> (res: Vec<
        Result<Self::Transformed, Self::Error>,
    >)
        ensures
            Self::transforms(adapter, event, context, res@),
    ;
}

impl<Event, Adapter, Ctx: ?Sized> Transformer<Event, Ctx> for Wrapper<Adapter> where
    Adapter: WithStrategy<Event>,
    Adapter::Strategy: Strategy<Adapter, Event, Ctx>,
 {
    type Error = <Adapter::Strategy as Strategy<Adapter, Event, Ctx>>::Error;

    type Transformed = <Adapter::Strategy as Strategy<Adapter, Event, Ctx>>::Transformed;

    /// Exactly what the [`Strategy`] chosen by [`WithStrategy`] may produce.
    open spec fn transforms(
        &self,
        event: Event,
        context: &Ctx,
        out: Seq<Result<Self::Transformed, Self::Error>>,
    ) -> bool {
        <Adapter::Strategy as Strategy<Adapter, Event, Ctx>>::transforms(
            &self.0,
            event,
            context,
            out,
        )
    }

    fn transform(&self, event: Event, context: &Ctx) -> (res: Vec<
        Result<Self::Transformed, Self::Error>,
    >) {
        <Adapter::Strategy as Strategy<Adapter, Event, Ctx>>::transform(&self.0, event, context)
    }
}

/// [`Strategy`] for wrapping events into [`Initial`].
#[derive(Debug)]
pub struct Initialized<InnerStrategy = AsIs>(PhantomData<InnerStrategy>);

impl<InnerStrategy> Clone for Initialized<InnerStrategy> {
    fn clone(&self) -> Self {
        Initialized(PhantomData)
    }
}

/// What the [`Initialized`] strategy may produce: the inner strategy's
/// outputs, one for one and in their order, each successful one wrapped into
/// [`Initial`] and each error kept as it is.
pub proof fn lemma_initialized_outputs<Adapter, Event, InnerStrategy, Ctx: ?Sized>(
    adapter: &Adapter,
    event: Event,
    context: &Ctx,
    out: Seq<Result<Initial<InnerStrategy::Transformed>, InnerStrategy::Error>>,
) where InnerStrategy: Strategy<Adapter, Event, Ctx>
    requires
        <Initialized<InnerStrategy> as Strategy<Adapter, Event, Ctx>>::transforms(
            adapter,
            event,
            context,
            out,
        ),
    ensures
        exists|inner: Seq<Result<InnerStrategy::Transformed, InnerStrategy::Error>>|
            {
                &&& InnerStrategy::transforms(adapter, event, context, inner)
                &&& out.len() == inner.len()
                &&& forall|i: int|
                    #![trigger inner[i]]
                    0 <= i < inner.len() ==> match inner[i] {
                        Ok(ev) => out[i] == Ok::<_, InnerStrategy::Error>(Initial(ev)),
                        Err(e) => out[i] == Err::<Initial<InnerStrategy::Transformed>, _>(e),
                    }
            },
{
    let inner = choose|inner: Seq<Result<InnerStrategy::Transformed, InnerStrategy::Error>>|
        InnerStrategy::transforms(adapter, event, context, inner) && out == initial_all(inner);
    assert(out.len() == inner.len());
}

impl<Adapter, Event, InnerStrategy, Ctx: ?Sized> Strategy<Adapter, Event, Ctx> for Initialized<
    InnerStrategy,
> where InnerStrategy: Strategy<Adapter, Event, Ctx> {
    type Error = InnerStrategy::Error;

    type Transformed = Initial<InnerStrategy::Transformed>;

    /// What the inner [`Strategy`] may produce, wrapped into [`Initial`].
    open spec fn transforms(
        adapter: &Adapter,
        event: Event,
        context: &Ctx,
        out: Seq<Result<Self::Transformed, Self::Error>>,
    ) -> bool {
        exists|inner: Seq<Result<InnerStrategy::Transformed, InnerStrategy::Error>>|
            InnerStrategy::transforms(adapter, event, context, inner) && out == initial_all(inner)
    }

    fn transform(adapter: &Adapter, event: Event, context: &Ctx) -> (res: Vec<
        Result<Self::Transformed, Self::Error>,
    >)
        ensures
            exists|inner: Seq<Result<InnerStrategy::Transformed, InnerStrategy::Error>>|
                {
                    &&& InnerStrategy::transforms(adapter, event, context, inner)
                    &&& res@.len() == inner.len()
                    &&& forall|i: int|
                        #![trigger inner[i]]
                        0 <= i < inner.len() ==> match inner[i] {
                            Ok(ev) => res@[i] == Ok::<_, InnerStrategy::Error>(Initial(ev)),
                            Err(e) => res@[i] == Err::<Initial<InnerStrategy::Transformed>, _>(e),
                        }
                },
    {
        let inner = InnerStrategy::transform(adapter, event, context);
        let res = wrap_initial(inner);
        proof {
            let w = inner@;
            assert(InnerStrategy::transforms(adapter, event, context, w) && res@ == initial_all(w));
            lemma_initialized_outputs::<Adapter, Event, InnerStrategy, Ctx>(adapter, event, context, res@);
        }
        res
    }
}

/// [`Strategy`] for skipping events.
#[derive(Clone, Copy, Debug)]
pub struct Skip;

impl<Adapter: Returning, Event, Ctx: ?Sized> Strategy<Adapter, Event, Ctx> for Skip {
    type Error = Adapter::Error;

    type Transformed = Adapter::Transformed;

    /// A skipped event produces nothing.
    open spec fn transforms(
        adapter: &Adapter,
        event: Event,
        context: &Ctx,
        out: Seq<Result<Self::Transformed, Self::Error>>,
    ) -> bool {
        out.len() == 0
    }

    fn transform(adapter: &Adapter, event: Event, context: &Ctx) -> (res: Vec<
        Result<Self::Transformed, Self::Error>,
    >) {
        Vec::new()
    }
}

/// [`Strategy`] for passing events as is, without any conversions.
#[derive(Clone, Copy, Debug)]
pub struct AsIs;

impl<Adapter, Event, Ctx: ?Sized> Strategy<Adapter, Event, Ctx> for AsIs {
    type Error = Infallible;

    type Transformed = Event;

    /// The event itself is the only output.
    open spec fn transforms(
        adapter: &Adapter,
        event: Event,
        context: &Ctx,
        out: Seq<Result<Self::Transformed, Self::Error>>,
    ) -> bool {
        out == seq![Ok::<Event, Infallible>(event)]
    }

    fn transform(adapter: &Adapter, event: Event, context: &Ctx) -> (res: Vec<
        Result<Self::Transformed, Self::Error>,
    >) {
        let mut res = Vec::new();
        res.push(Ok(event));
        res
    }
}

/// [`Strategy`] for converting events using a [`From`] impl.
#[derive(Copy, Debug)]
pub struct Into<I, InnerStrategy = AsIs>(PhantomData<(I, InnerStrategy)>);

impl<I, InnerStrategy> Clone for Into<I, InnerStrategy> {
    fn clone(&self) -> Self {
        Into(PhantomData)
    }
}

/// What the [`Into`] strategy may produce: the inner strategy's outputs, one
/// for one and in their order, each successful one converted with [`From`] and
/// each error kept as it is.
pub proof fn lemma_into_outputs<Adapter, Event, IntoEvent, InnerStrategy, Ctx: ?Sized>(
    adapter: &Adapter,
    event: Event,
    context: &Ctx,
    out: Seq<Result<IntoEvent, InnerStrategy::Error>>,
) where
    InnerStrategy: Strategy<Adapter, Event, Ctx>,
    IntoEvent: From<InnerStrategy::Transformed>,

    requires
        <Into<IntoEvent, InnerStrategy> as Strategy<Adapter, Event, Ctx>>::transforms(
            adapter,
            event,
            context,
            out,
        ),
    ensures
        exists|inner: Seq<Result<InnerStrategy::Transformed, InnerStrategy::Error>>|
            {
                &&& InnerStrategy::transforms(adapter, event, context, inner)
                &&& out.len() == inner.len()
                &&& forall|i: int|
                    #![trigger inner[i]]
                    0 <= i < inner.len() ==> match inner[i] {
                        Ok(ev) => out[i] is Ok && call_ensures(IntoEvent::from, (ev,), out[i]->Ok_0),
                        Err(e) => out[i] == Err::<IntoEvent, _>(e),
                    }
            },
{
    let inner = choose|inner: Seq<Result<InnerStrategy::Transformed, InnerStrategy::Error>>|
        InnerStrategy::transforms(adapter, event, context, inner) && converted_all(inner, out);
    assert forall|i: int| #![trigger inner[i]] 0 <= i < inner.len() implies match inner[i] {
        Ok(ev) => out[i] is Ok && call_ensures(IntoEvent::from, (ev,), out[i]->Ok_0),
        Err(e) => out[i] == Err::<IntoEvent, _>(e),
    } by {
        assert(converted(inner[i], out[i]));
    }
}

impl<Adapter, Event, IntoEvent, InnerStrategy, Ctx: ?Sized> Strategy<Adapter, Event, Ctx> for Into<
    IntoEvent,
    InnerStrategy,
> where
    InnerStrategy: Strategy<Adapter, Event, Ctx>,
    IntoEvent: From<InnerStrategy::Transformed>,
 {
    type Error = InnerStrategy::Error;

    type Transformed = IntoEvent;

    /// What the inner [`Strategy`] may produce, converted with [`From`].
    open spec fn transforms(
        adapter: &Adapter,
        event: Event,
        context: &Ctx,
        out: Seq<Result<Self::Transformed, Self::Error>>,
    ) -> bool {
        exists|inner: Seq<Result<InnerStrategy::Transformed, InnerStrategy::Error>>|
            InnerStrategy::transforms(adapter, event, context, inner) && converted_all(inner, out)
    }

    fn transform(adapter: &Adapter, event: Event, context: &Ctx) -> (res: Vec<
        Result<Self::Transformed, Self::Error>,
    >)
        ensures
            exists|inner: Seq<Result<InnerStrategy::Transformed, InnerStrategy::Error>>|
                {
                    &&& InnerStrategy::transforms(adapter, event, context, inner)
                    &&& res@.len() == inner.len()
                    &&& forall|i: int|
                        #![trigger inner[i]]
                        0 <= i < inner.len() ==> match inner[i] {
                            Ok(ev) => res@[i] is Ok && call_ensures(IntoEvent::from, (ev,), res@[i]->Ok_0),
                            Err(e) => res@[i] == Err::<IntoEvent, _>(e),
                        }
                },
    {
        let inner = InnerStrategy::transform(adapter, event, context);
        let res = convert_all(inner);
        proof {
            let w = inner@;
            assert(InnerStrategy::transforms(adapter, event, context, w) && converted_all(w, res@));
            lemma_into_outputs::<Adapter, Event, IntoEvent, InnerStrategy, Ctx>(adapter, event, context, res@);
        }
        res
    }
}

/// [`Strategy`] for splitting a single event into multiple ones. Implement
/// [`Splitter`] to define the splitting logic.
#[derive(Copy, Debug)]
pub struct Split<Into>(PhantomData<Into>);

impl<Into> Clone for Split<Into> {
    fn clone(&self) -> Self {
        Split(PhantomData)
    }
}

/// Splits a single event into multiple ones for the [`Split`] [`Strategy`].
pub trait Splitter<From, Into> {
    /// Whether `parts` is what `event` may be split into.
    spec fn splits(&self, event: From, parts: Seq<Into>) -> bool;

    /// Splits the `event`.
    fn split(&self, event: From) -> (res: Vec<Into>)
        ensures
            self.splits(event, res@),
    ;
}

impl<Adapter, Event, IntoEvent, Ctx: ?Sized> Strategy<Adapter, Event, Ctx> for Split<IntoEvent> where
    Adapter: Splitter<Event, IntoEvent>,
 {
    type Error = Infallible;

    type Transformed = IntoEvent;

    /// The parts the [`Splitter`] may produce, each as a successful output.
    open spec fn transforms(
        adapter: &Adapter,
        event: Event,
        context: &Ctx,
        out: Seq<Result<Self::Transformed, Self::Error>>,
    ) -> bool {
        exists|parts: Seq<IntoEvent>|
            adapter.splits(event, parts) && out == all_ok::<IntoEvent, Infallible>(parts)
    }

    fn transform(adapter: &Adapter, event: Event, context: &Ctx) -> (res: Vec<
        Result<Self::Transformed, Self::Error>,
    >)
        ensures
            exists|parts: Seq<IntoEvent>|
                {
                    &&& adapter.splits(event, parts)
                    &&& res@.len() == parts.len()
                    &&& forall|i: int| 0 <= i < parts.len() ==> #[trigger] res@[i] == Ok::<IntoEvent, Infallible>(parts[i])
                },
    {
        let parts = adapter.split(event);
        let res = wrap_ok(parts);
        proof {
            let w = parts@;
            assert(adapter.splits(event, w) && res@ == all_ok::<IntoEvent, Infallible>(w));
        }
        res
    }
}

/// What the [`Split`] strategy may produce: the parts the [`Splitter`] may
/// produce, each as a successful output, in the splitter's order.
pub proof fn lemma_split_outputs<Adapter: Splitter<Event, IntoEvent>, Event, IntoEvent, Ctx: ?Sized>(
    adapter: &Adapter,
    event: Event,
    context: &Ctx,
    out: Seq<Result<IntoEvent, Infallible>>,
)
    requires
        <Split<IntoEvent> as Strategy<Adapter, Event, Ctx>>::transforms(adapter, event, context, out),
    ensures
        exists|parts: Seq<IntoEvent>|
            {
                &&& adapter.splits(event, parts)
                &&& out.len() == parts.len()
                &&& forall|i: int| 0 <= i < parts.len() ==> #[trigger] out[i] == Ok::<IntoEvent, Infallible>(parts[i])
            },
{
    let parts = choose|parts: Seq<IntoEvent>|
        adapter.splits(event, parts) && out == all_ok::<IntoEvent, Infallible>(parts);
    assert(out.len() == parts.len());
}

/// Context implemented for every type.
pub trait AnyContext {}

impl<T: ?Sized> AnyContext for T {}

} // verus!
