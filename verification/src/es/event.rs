//! Event machinery.

pub mod adapter;
pub mod codegen;
pub mod reflect;
pub mod version_order;

use vstd::prelude::*;
use vstd::std_specs::convert::TryFromSpec;

verus! {

/// Fully qualified name of an [`Event`].
pub type Name = &'static str;

/// Abstracted revision number of an [`Event`].
pub trait Revision: Copy {}

impl Revision for &str {}

impl Revision for Version {}

/// The reflexive conversion of the standard library, `impl<T> From<T> for T`:
/// as its documentation says, it returns the argument unchanged. Through it a
/// [`Version::try_new`] of a `u16` is known to convert the value as it is.
pub assume_specification<Same>[ <Same as std::convert::From<Same>>::from ](same: Same) -> (res: Same)
    ensures
        res == same,
;

/// Non-zero incremental revision number of an [`Event`].
#[derive(Clone, Copy, Debug, PartialEq, Eq, Structural, Hash, Ord)]
pub struct Version(u16);

impl Version {
    #[verifier::type_invariant]
    spec fn non_zero(self) -> bool {
        self.0 != 0
    }

    /// The number this [`Version`] stands for.
    pub closed spec fn value(self) -> u16 {
        self.0
    }

    /// Creates a new [`Version`] out of the provided `value`.
    pub fn try_new<N>(value: N) -> (res: Option<Self>)
        where u16: TryFrom<N>,
        ensures
            <u16 as TryFromSpec<N>>::obeys_try_from_spec() ==> (res matches Some(v) <==> (
                <u16 as TryFromSpec<N>>::try_from_spec(value) matches Ok(n) && n != 0)),
            <u16 as TryFromSpec<N>>::obeys_try_from_spec() ==> (res matches Some(v) ==> (
                <u16 as TryFromSpec<N>>::try_from_spec(value) matches Ok(n) && n == v.value())),
            exists|r: Result<u16, <u16 as TryFrom<N>>::Error>|
                #[trigger] call_ensures(<u16 as TryFrom<N>>::try_from, (value,), r) && (
                res matches Some(v) <==> (r matches Ok(n) && n != 0)) && (res matches Some(v)
                ==> (r matches Ok(n) && n == v.value())),
    {
        match u16::try_from(value) {
            Ok(n) => if n != 0 { Some(Version(n)) } else { None },
            Err(_) => None,
        }
    }

    /// Creates a new [`Version`] out of the provided non-zero `value`.
    pub fn new_unchecked(value: u16) -> (res: Self)
        requires
            value != 0,
        ensures
            res.value() == value,
    {
        Version(value)
    }

    /// Two versions are equal exactly when their values are.
    pub proof fn lemma_eq_follows_value(a: Version, b: Version)
        ensures
            (a == b) <==> (a.value() == b.value()),
    {
    }

    /// Returns the value of this [`Version`] as a primitive type.
    pub fn get(self) -> (res: u16)
        ensures
            res == self.value(),
            res != 0,
    {
        proof { use_type_invariant(&self); }
        self.0
    }
}

/// An event describing something that has occurred.
pub trait Event {
    /// Returns [`Name`] of this [`Event`].
    fn name(&self) -> Name;
}

/// Concrete [`Event`] defined statically.
pub trait Static: Event {
    /// Concrete [`Name`] of this [`Event`].
    const NAME: Name;
}

impl<Ev: Static + ?Sized> Event for Ev {
    fn name(&self) -> (res: Name)
        ensures
            res == <Self as Static>::NAME,
    {
        <Self as Static>::NAME
    }
}

/// [`Event`] capable of evolving with time.
pub trait Revisable: Event {
    /// Type of this [`Event`]'s [`Revision`] number.
    type Revision: Revision;

    /// Returns [`Revision`] of this [`Event`].
    fn revision(&self) -> Self::Revision;
}

/// Shortcut for naming a [`Revision`] of a [`Revisable`] event.
pub type RevisionOf<Ev> = <Ev as Revisable>::Revision;

/// [`Static`] event of a concrete [`Revision`].
pub trait Concrete: Revisable + Static {
    /// Type of this event's [`Revision`] number.
    type Revision: Revision;

    /// Concrete [`Revision`] of this [`Event`].
    const REVISION: RevisionOf<Self>;
}

impl<Ev: Concrete + ?Sized> Revisable for Ev {
    type Revision = <Self as Concrete>::Revision;

    fn revision(&self) -> (res: Self::Revision)
        ensures
            res == <Self as Concrete>::REVISION,
    {
        <Self as Concrete>::REVISION
    }
}

/// State that can be calculated by applying the specified [`Event`].
pub trait Sourced<Ev: ?Sized>: Sized {
    /// The state this one becomes once `event` is applied to it.
    spec fn sourced(&self, event: &Ev) -> Self;

    /// Applies the specified [`Event`] to the current state.
    fn apply(&mut self, event: &Ev)
        ensures
            *final(self) == <Self as Sourced<Ev>>::sourced(&*old(self), event),
    ;
}

impl<Ev, S> Sourced<Ev> for Option<S> where Ev: Concrete + ?Sized, S: Sourced<Ev> {
    /// An absent state stays absent; a present one is sourced by `event`.
    open spec fn sourced(&self, event: &Ev) -> Self {
        match self {
            Some(state) => Some(<S as Sourced<Ev>>::sourced(state, event)),
            None => None,
        }
    }

    fn apply(&mut self, event: &Ev) {
        match self {
            Some(state) => state.apply(event),
            None => {},
        }
    }
}

/// Before a state can be [`Sourced`] it needs to be [`Initialized`].
pub trait Initialized<Ev: ?Sized>: Sized {
    /// The state created out of `event`.
    spec fn initial(event: &Ev) -> Self;

    /// Creates an initial state from the given [`Event`].
    fn init(event: &Ev) -> (res: Self)
        ensures
            res == Self::initial(event),
    ;
}

/// Marks an [`Event`] that makes some [`Sourced`] state [`Initialized`].
#[derive(Clone, Copy, Debug)]
pub struct Initial<Ev: ?Sized>(pub Ev);

impl<Ev> From<Ev> for Initial<Ev> {
    fn from(ev: Ev) -> (res: Self) {
        Initial(ev)
    }
}

impl<Ev> vstd::std_specs::convert::FromSpecImpl<Ev> for Initial<Ev> {
    open spec fn obeys_from_spec() -> bool {
        true
    }

    open spec fn from_spec(v: Ev) -> Self {
        Initial(v)
    }
}

impl<Ev, S> Sourced<Initial<Ev>> for Option<S> where Ev: Event + ?Sized, S: Initialized<Ev> {
    /// Whatever the state was, it becomes the one initialized by the event.
    open spec fn sourced(&self, event: &Initial<Ev>) -> Self {
        Some(S::initial(&event.0))
    }

    fn apply(&mut self, event: &Initial<Ev>) {
        *self = Some(S::init(&event.0));
    }
}

/// [`Event`] sourcing the specified state.
///
/// This is a reversed version of [`Sourced`], applying an event to a state,
/// intended to simplify the use of trait objects describing sets of events.
pub trait Sourcing<S> {
    /// The state `state` becomes once this event is applied to it.
    spec fn sourcing(&self, state: S) -> S;

    /// Applies this [`Event`] to the specified `state`.
    fn apply_to(&self, state: &mut S)
        ensures
            *final(state) == self.sourcing(*old(state)),
    ;
}

impl<Ev, S: Sourced<Ev>> Sourcing<S> for Ev {
    /// Exactly what sourcing `state` by this event gives.
    open spec fn sourcing(&self, state: S) -> S {
        <S as Sourced<Ev>>::sourced(&state, self)
    }

    fn apply_to(&self, state: &mut S) {
        state.apply(self);
    }
}

impl<'e, S> Sourced<dyn Sourcing<S> + 'e> for S {
    /// What the event, whichever it is, makes of this state.
    open spec fn sourced(&self, event: &(dyn Sourcing<S> + 'e)) -> S {
        event.sourcing(*self)
    }

    fn apply(&mut self, event: &(dyn Sourcing<S> + 'e)) {
        event.apply_to(self);
    }
}

} // verus!
