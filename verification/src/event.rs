//! Event related definitions of the plain (non event-sourcing) flavour.

use vstd::prelude::*;

verus! {

/// Event that describes something that has occurred (happened fact).
///
/// A sequence of [`Event`]s may represent a concrete versioned state of an
/// Aggregate.
pub trait Event {
    /// Returns type of this [`Event`].
    ///
    /// _Note:_ This should effectively be a constant value, and should never
    /// change.
    fn event_type(&self) -> &'static str;

    /// Returns version of this [`Event`].
    fn ver(&self) -> u16;
}

/// Versioned [`Event`].
///
/// The single type of [`Event`] may have different versions, which allows
/// evolving [`Event`] in the type.
pub trait Versioned {
    /// Returns type of this [`Event`].
    fn event_type() -> &'static str;

    /// Returns version of this [`Event`].
    fn ver() -> u16;
}

impl<Ev: Versioned> Event for Ev {
    fn event_type(&self) -> (res: &'static str)
        ensures
            call_ensures(<Self as Versioned>::event_type, (), res),
    {
        <Self as Versioned>::event_type()
    }

    fn ver(&self) -> (res: u16)
        ensures
            call_ensures(<Self as Versioned>::ver, (), res),
    {
        <Self as Versioned>::ver()
    }
}

/// State that can be calculated by applying specified [`Event`].
pub trait Sourced<Ev: ?Sized>: Sized {
    /// The state this one becomes once `event` is applied to it.
    spec fn sourced(&self, event: &Ev) -> Self;

    /// Applies given [`Event`] to the current state.
    fn apply(&mut self, event: &Ev)
        ensures
            *final(self) == old(self).sourced(event),
    ;
}

impl<Ev: Event + ?Sized, Agg: Sourced<Ev>> Sourced<Ev> for Option<Agg> {
    /// An absent state stays absent; a present one is sourced by `event`.
    open spec fn sourced(&self, event: &Ev) -> Self {
        match self {
            Some(agg) => Some(agg.sourced(event)),
            None => None,
        }
    }

    fn apply(&mut self, event: &Ev) {
        if let Some(agg) = self {
            agg.apply(event);
        }
    }
}

/// Before items can be [`Sourced`], they need to be [`Initialized`].
pub trait Initialized<Ev: ?Sized>: Sized {
    /// The state created out of `event`.
    spec fn initial(event: &Ev) -> Self;

    /// Creates initial state from given [`Event`].
    fn init(event: &Ev) -> (res: Self)
        ensures
            res == Self::initial(event),
    ;
}

/// Wrapper-type intended for [`Event`]s that can initialize [`Sourced`] items.
#[derive(Debug)]
pub struct Initial<Ev: ?Sized>(pub Ev);

impl<Ev: Event + ?Sized, Agg: Initialized<Ev>> Sourced<Initial<Ev>> for Option<Agg> {
    /// Whatever the state was, it becomes the one initialized by the event.
    open spec fn sourced(&self, event: &Initial<Ev>) -> Self {
        Some(Agg::initial(&event.0))
    }

    fn apply(&mut self, event: &Initial<Ev>) {
        *self = Some(Agg::init(&event.0));
    }
}

} // verus!
