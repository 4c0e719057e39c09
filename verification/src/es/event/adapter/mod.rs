//! [`Adapter`] definitions.

pub mod transformer;

use vstd::prelude::*;

pub use self::transformer::{strategy, Adapt, Strategy, Transformer};

verus! {

/// Specifies result of an [`Adapter`].
pub trait Returning {
    /// Error of this [`Adapter`].
    type Error;

    /// Converted [`Event`].
    ///
    /// [`Event`]: crate::es::event::Event
    type Transformed;
}

/// Wrapper around the `context` of [`Adapter::transform_all()`].
#[derive(Clone, Copy, Debug)]
pub struct Context<T: ?Sized>(pub T);

impl<T: ?Sized> std::borrow::Borrow<()> for Context<T> {
    fn borrow(&self) -> &() {
        &()
    }
}

/// Wrapper type for an [`Adapter`] carrying the [`Transformer`] impls, so
/// that they may be generated for [`Event`]s without breaking orphan rules.
///
/// [`Event`]: crate::es::event::Event
#[derive(Debug)]
pub struct Adapted<A>(pub A);

impl<A: Returning> Returning for Adapted<A> {
    type Error = A::Error;
    type Transformed = A::Transformed;
}

/// All the outputs in `outs`, one event's outputs after another.
pub open spec fn flatten<T>(outs: Seq<Seq<T>>) -> Seq<T>
    decreases outs.len(),
{
    if outs.len() == 0 {
        Seq::empty()
    } else {
        flatten(outs.drop_last()) + outs.last()
    }
}

/// Whether `to` is the [`Returning`] form of `from`: an [`Ok`] stays [`Ok`],
/// an [`Err`] stays [`Err`], each being what [`From`] gives for it.
pub open spec fn returned<T, E, RT: From<T>, RE: From<E>>(
    from: Result<T, E>,
    to: Result<RT, RE>,
) -> bool {
    match (from, to) {
        (Ok(x), Ok(y)) => call_ensures(RT::from, (x,), y),
        (Err(a), Err(b)) => call_ensures(RE::from, (a,), b),
        _ => false,
    }
}

/// Whether `to` is `from`, element by element [`returned`].
pub open spec fn returned_all<T, E, RT: From<T>, RE: From<E>>(
    from: Seq<Result<T, E>>,
    to: Seq<Result<RT, RE>>,
) -> bool {
    &&& from.len() == to.len()
    &&& forall|i: int| 0 <= i < from.len() ==> #[trigger] returned(from[i], to[i])
}

/// Whether `outs` are outputs that `transformer` may produce for each of the
/// `events` in turn.
pub open spec fn transforms_each<Tr: Transformer<Ev, Ctx>, Ev, Ctx: ?Sized>(
    transformer: Tr,
    events: Seq<Ev>,
    context: &Ctx,
    outs: Seq<Seq<Result<Tr::Transformed, Tr::Error>>>,
) -> bool {
    &&& outs.len() == events.len()
    &&& forall|i: int|
        0 <= i < events.len() ==> #[trigger] transformer.transforms(events[i], context, outs[i])
}

/// Lexicographic order on measures of work left.
pub open spec fn lex_less(a: (nat, nat), b: (nat, nat)) -> bool {
    a.0 < b.0 || (a.0 == b.0 && a.1 < b.1)
}

proof fn lemma_flatten_push<T>(outs: Seq<Seq<T>>, last: Seq<T>)
    ensures
        flatten(outs.push(last)) == flatten(outs) + last,
{
    assert(outs.push(last).drop_last() =~= outs);
}

/// The outputs of a single event flatten into those outputs themselves.
pub proof fn lemma_flatten_single<T>(out: Seq<T>)
    ensures
        flatten(seq![out]) == out,
{
    let one = seq![out];
    assert(one.drop_last() =~= Seq::<Seq<T>>::empty());
    assert(flatten(one.drop_last()) == Seq::<T>::empty());
    assert(one.last() == out);
    assert(Seq::<T>::empty() + out =~= out);
}

/// Flattening the outputs of two runs one after another gives the outputs of
/// the first run followed by those of the second.
proof fn lemma_flatten_append<T>(a: Seq<Seq<T>>, b: Seq<Seq<T>>)
    ensures
        flatten(a + b) == flatten(a) + flatten(b),
    decreases b.len(),
{
    if b.len() == 0 {
        assert(a + b =~= a);
        assert(flatten(b) =~= Seq::<T>::empty());
        assert(flatten(a) + flatten(b) =~= flatten(a));
    } else {
        lemma_flatten_append(a, b.drop_last());
        assert((a + b).drop_last() =~= a + b.drop_last());
        assert((a + b).last() == b.last());
        assert(flatten(a) + flatten(b) =~= flatten(a) + flatten(b.drop_last()) + b.last());
    }
}

/// Events are converted one by one: the outputs of two runs of events, one
/// after another, are outputs of the events of both runs, and what they
/// flatten into is the flattened outputs of the first run followed by those of
/// the second.
pub proof fn lemma_transforms_each_append<Tr: Transformer<Ev, Ctx>, Ev, Ctx: ?Sized>(
    transformer: Tr,
    context: &Ctx,
    first: Seq<Ev>,
    first_outs: Seq<Seq<Result<Tr::Transformed, Tr::Error>>>,
    second: Seq<Ev>,
    second_outs: Seq<Seq<Result<Tr::Transformed, Tr::Error>>>,
)
    requires
        transforms_each(transformer, first, context, first_outs),
        transforms_each(transformer, second, context, second_outs),
    ensures
        transforms_each(transformer, first + second, context, first_outs + second_outs),
        flatten(first_outs + second_outs) == flatten(first_outs) + flatten(second_outs),
{
    let events = first + second;
    let outs = first_outs + second_outs;
    assert forall|i: int| 0 <= i < events.len() implies #[trigger] transformer.transforms(
        events[i],
        context,
        outs[i],
    ) by {
        if i < first.len() {
            assert(transformer.transforms(first[i], context, first_outs[i]));
        } else {
            assert(transformer.transforms(
                second[i - first.len()],
                context,
                second_outs[i - first.len()],
            ));
        }
    }
    lemma_flatten_append(first_outs, second_outs);
}

/// Whether `transformer` has at most one output for each event within
/// `context`.
pub open spec fn is_deterministic<Tr: Transformer<Ev, Ctx>, Ev, Ctx: ?Sized>(
    transformer: Tr,
    context: &Ctx,
) -> bool {
    forall|event: Ev, a: Seq<Result<Tr::Transformed, Tr::Error>>, b: Seq<Result<Tr::Transformed, Tr::Error>>|
        transformer.transforms(event, context, a) && transformer.transforms(event, context, b)
            ==> a == b
}

/// With a transformer having one output per event, the outputs of a run of
/// events are determined: the transformed events are exactly those outputs,
/// flattened in order.
pub proof fn lemma_transforms_each_determined<Tr: Transformer<Ev, Ctx>, Ev, Ctx: ?Sized>(
    transformer: Tr,
    context: &Ctx,
    events: Seq<Ev>,
    a: Seq<Seq<Result<Tr::Transformed, Tr::Error>>>,
    b: Seq<Seq<Result<Tr::Transformed, Tr::Error>>>,
)
    requires
        is_deterministic(transformer, context),
        transforms_each(transformer, events, context, a),
        transforms_each(transformer, events, context, b),
    ensures
        a == b,
        flatten(a) == flatten(b),
{
    assert forall|i: int| 0 <= i < a.len() implies a[i] == b[i] by {
        assert(transformer.transforms(events[i], context, a[i]));
        assert(transformer.transforms(events[i], context, b[i]));
    }
    assert(a =~= b);
}

/// Stream of the converted events of an [`Adapter`]: applies
/// [`Transformer::transform()`] to every event in turn and flattens the
/// outputs.
pub struct TransformedStream<'a, A, Ev, Ctx: ?Sized> where
    A: Returning,
    Adapted<&'a A>: Transformer<Ev, Ctx>,
 {
    /// Events not transformed yet.
    events: Vec<Ev>,
    /// Outputs of the last transformed event not yielded yet.
    transformed: Vec<
        Result<
            <Adapted<&'a A> as Transformer<Ev, Ctx>>::Transformed,
            <Adapted<&'a A> as Transformer<Ev, Ctx>>::Error,
        >,
    >,
    /// The [`Transformer`].
    adapter: Adapted<&'a A>,
    /// Context of the transformation.
    context: &'a Ctx,
    /// Events transformed already.
    consumed: Ghost<Seq<Ev>>,
    /// Outputs of the events transformed already.
    outs: Ghost<
        Seq<
            Seq<
                Result<
                    <Adapted<&'a A> as Transformer<Ev, Ctx>>::Transformed,
                    <Adapted<&'a A> as Transformer<Ev, Ctx>>::Error,
                >,
            >,
        >,
    >,
    /// Outputs yielded already, before being converted.
    yielded_raw: Ghost<
        Seq<
            Result<
                <Adapted<&'a A> as Transformer<Ev, Ctx>>::Transformed,
                <Adapted<&'a A> as Transformer<Ev, Ctx>>::Error,
            >,
        >,
    >,
    /// Outputs yielded already.
    yielded: Ghost<Seq<Result<A::Transformed, A::Error>>>,
}

impl<'a, A, Ev, Ctx: ?Sized> TransformedStream<'a, A, Ev, Ctx> where
    A: Returning,
    Adapted<&'a A>: Transformer<Ev, Ctx>,
    A::Transformed: From<<Adapted<&'a A> as Transformer<Ev, Ctx>>::Transformed>,
    A::Error: From<<Adapted<&'a A> as Transformer<Ev, Ctx>>::Error>,
 {
    /// All the events of this stream, in order: those transformed already and
    /// those still to be transformed.
    pub closed spec fn all_events(&self) -> Seq<Ev> {
        self.consumed@ + self.events@
    }

    /// Outputs yielded by this stream so far.
    pub closed spec fn yielded(&self) -> Seq<Result<A::Transformed, A::Error>> {
        self.yielded@
    }

    /// The adapter of this stream.
    pub closed spec fn adapter(&self) -> &'a A {
        self.adapter.0
    }

    /// The context of this stream.
    pub closed spec fn context(&self) -> &'a Ctx {
        self.context
    }

    /// Whether everything has been yielded.
    pub closed spec fn is_done(&self) -> bool {
        self.events@.len() == 0 && self.transformed@.len() == 0
    }

    /// Measure of the work left: events not transformed yet, then outputs of
    /// the last event not yielded yet.
    pub closed spec fn work_left(&self) -> (nat, nat) {
        (self.events@.len(), self.transformed@.len())
    }

    /// The internal consistency of this stream: every transformed event has its
    /// outputs, and what was yielded, followed by what is still buffered, is
    /// their flattening.
    pub closed spec fn wf(&self) -> bool {
        &&& transforms_each(self.adapter, self.consumed@, self.context, self.outs@)
        &&& flatten(self.outs@) == self.yielded_raw@ + self.transformed@
        &&& returned_all(self.yielded_raw@, self.yielded@)
    }

    /// Whether `res` may be everything this stream yields, given what it has
    /// yielded already: the flattened outputs of all its events, each
    /// [`returned`].
    pub open spec fn yields_all(&self, res: Seq<Result<A::Transformed, A::Error>>) -> bool {
        exists|outs|
            transforms_each(Adapted(self.adapter()), self.all_events(), self.context(), outs)
                && returned_all(flatten(outs), res)
    }

    /// Creates a new [`TransformedStream`].
    pub fn new(adapter: &'a A, events: Vec<Ev>, context: &'a Ctx) -> (res: Self)
        ensures
            res.wf(),
            res.all_events() == events@,
            res.yielded() == Seq::<Result<A::Transformed, A::Error>>::empty(),
            res.adapter() == adapter,
            res.context() == context,
    {
        let res = TransformedStream {
            events,
            transformed: Vec::new(),
            adapter: Adapted(adapter),
            context,
            consumed: Ghost(Seq::empty()),
            outs: Ghost(Seq::empty()),
            yielded_raw: Ghost(Seq::empty()),
            yielded: Ghost(Seq::empty()),
        };
        assert(res.all_events() =~= events@);
        res
    }

    /// Appends an `event` to the events still to be transformed, as it
    /// arrives.
    pub fn push_event(&mut self, event: Ev)
        requires
            old(self).wf(),
        ensures
            final(self).wf(),
            final(self).all_events() == old(self).all_events().push(event),
            final(self).yielded() == old(self).yielded(),
            final(self).adapter() == old(self).adapter(),
            final(self).context() == old(self).context(),
            !final(self).is_done(),
    {
        self.events.push(event);
        assert(self.all_events() =~= old(self).all_events().push(event));
    }

    /// Once done, a stream has yielded everything it may yield.
    pub proof fn lemma_done_yields_all(&self)
        requires
            self.wf(),
            self.is_done(),
        ensures
            self.yields_all(self.yielded()),
    {
        assert(self.all_events() =~= self.consumed@);
        assert(self.yielded_raw@ + self.transformed@ =~= self.yielded_raw@);
        assert(Adapted(self.adapter()) == self.adapter);
        assert(flatten(self.outs@) =~= self.yielded_raw@);
        assert(transforms_each(Adapted(self.adapter()), self.all_events(), self.context(), self.outs@)
            && returned_all(flatten(self.outs@), self.yielded()));
    }

    /// Yields the next converted event, if any.
    pub fn next(&mut self) -> (res: Option<Result<A::Transformed, A::Error>>)
        requires
            old(self).wf(),
        ensures
            final(self).wf(),
            final(self).all_events() == old(self).all_events(),
            final(self).adapter() == old(self).adapter(),
            final(self).context() == old(self).context(),
            match res {
                Some(r) => {
                    &&& final(self).yielded() == old(self).yielded().push(r)
                    &&& lex_less(final(self).work_left(), old(self).work_left())
                },
                None => final(self).yielded() == old(self).yielded() && final(self).is_done(),
            },
    {
        loop
            invariant
                self.wf(),
                self.all_events() == old(self).all_events(),
                self.adapter() == old(self).adapter(),
                self.context() == old(self).context(),
                self.yielded() == old(self).yielded(),
                self.work_left() == old(self).work_left() || lex_less(
                    self.work_left(),
                    old(self).work_left(),
                ),
            decreases self.events@.len(), self.transformed@.len(),
        {
            if self.transformed.len() > 0 {
                let ghost before = self.transformed@;
                let raw = self.transformed.remove(0);
                assert(before =~= seq![raw] + self.transformed@);
                let res = match raw {
                    Ok(ev) => Ok(A::Transformed::from(ev)),
                    Err(e) => Err(A::Error::from(e)),
                };
                proof {
                    assert(returned(raw, res));
                    let prev_raw = self.yielded_raw@;
                    self.yielded_raw@ = prev_raw.push(raw);
                    let prev = self.yielded@;
                    self.yielded@ = prev.push(res);
                    assert(self.yielded_raw@ + self.transformed@ =~= prev_raw + before);
                    assert forall|i: int| 0 <= i < self.yielded_raw@.len() implies #[trigger] returned(
                        self.yielded_raw@[i],
                        self.yielded@[i],
                    ) by {
                        if i < prev_raw.len() {
                            assert(returned(prev_raw[i], prev[i]));
                        }
                    }
                }
                return Some(res);
            }
            if self.events.len() == 0 {
                return None;
            }
            let event = self.events.remove(0);
            let out = self.adapter.transform(event, self.context);
            proof {
                let prev_consumed = self.consumed@;
                let prev_outs = self.outs@;
                self.consumed@ = prev_consumed.push(event);
                self.outs@ = prev_outs.push(out@);
                lemma_flatten_push(prev_outs, out@);
                assert(self.consumed@ + self.events@ =~= prev_consumed + (seq![event] + self.events@));
                assert forall|i: int| 0 <= i < self.consumed@.len() implies #[trigger] self.adapter.transforms(
                    self.consumed@[i],
                    self.context,
                    self.outs@[i],
                ) by {
                    if i < prev_consumed.len() {
                        assert(self.adapter.transforms(prev_consumed[i], self.context, prev_outs[i]));
                    }
                }
            }
            self.transformed = out;
        }
    }
}

/// Facility to convert events: skipping unused ones, transforming them from one
/// version to another, splitting them into more granular ones.
///
/// Provided as a blanket impl for every [`Returning`] type whose [`Adapted`]
/// form is a [`Transformer`] of the events.
pub trait Adapter<'a, Ev, Ctx: ?Sized> {
    /// Error of this [`Adapter`].
    type Error;

    /// Converted event.
    type Transformed;

    /// Converts all the incoming `events` into [`Transformed`] ones.
    ///
    /// [`Transformed`]: Self::Transformed
    fn transform_all(&'a self, events: Vec<Ev>, context: &'a Ctx) -> Vec<
        Result<Self::Transformed, Self::Error>,
    >;
}

impl<'a, A, Ev, Ctx: ?Sized + 'a> Adapter<'a, Ev, Ctx> for A where
    A: Returning + 'a,
    Adapted<&'a A>: Transformer<Ev, Ctx>,
    A::Transformed: From<<Adapted<&'a A> as Transformer<Ev, Ctx>>::Transformed>,
    A::Error: From<<Adapted<&'a A> as Transformer<Ev, Ctx>>::Error>,
 {
    type Error = <A as Returning>::Error;

    type Transformed = <A as Returning>::Transformed;

    fn transform_all(&'a self, events: Vec<Ev>, context: &'a Ctx) -> (res: Vec<
        Result<<A as Returning>::Transformed, <A as Returning>::Error>,
    >)
        ensures
            exists|outs|
                transforms_each(Adapted(self), events@, context, outs) && returned_all(
                    flatten(outs),
                    res@,
                ),
    {
        let mut stream = TransformedStream::new(self, events, context);
        let ghost all = events@;
        let mut res: Vec<Result<A::Transformed, A::Error>> = Vec::new();
        loop
            invariant
                stream.wf(),
                stream.all_events() == all,
                all == events@,
                stream.adapter() == self,
                stream.context() == context,
                stream.yielded() == res@,
            decreases stream.work_left().0, stream.work_left().1,
        {
            match stream.next() {
                Some(r) => {
                    res.push(r);
                },
                None => {
                    proof {
                        stream.lemma_done_yields_all();
                    }
                    return res;
                },
            }
        }
    }
}

} // verus!
