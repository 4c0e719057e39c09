//! Compile time reflection for [`Event`] machinery.
//!
//! [`Event`]: super::Event

use vstd::prelude::*;

use super::{Event, Name, Revisable};

verus! {

/// Compile time reflection of a single or multiple [`StaticEvent`]s.
///
/// [`StaticEvent`]: super::Static
pub trait Static: Event {
    /// List of all [`StaticEvent::NAME`]s this [`Event`] is composed of
    /// (including multiple levels of composition). May contain duplicates.
    ///
    /// [`StaticEvent::NAME`]: super::Static::NAME
    const NAMES: &'static [Name];
}

/// The pairs of `names` and `revisions` at equal positions, as many as the
/// shorter of the two has.
pub open spec fn zipped<A, B>(names: Seq<A>, revisions: Seq<B>) -> Seq<(A, B)> {
    Seq::new(
        if names.len() <= revisions.len() {
            names.len()
        } else {
            revisions.len()
        },
        |i: int| (names[i], revisions[i]),
    )
}

/// Zipping pairs the `i`-th name with the `i`-th revision, for every `i`
/// below the shorter of the two lengths.
pub proof fn lemma_zipped_pairs<A, B>(names: Seq<A>, revisions: Seq<B>)
    ensures
        zipped(names, revisions).len() <= names.len(),
        zipped(names, revisions).len() <= revisions.len(),
        zipped(names, revisions).len() == names.len() || zipped(names, revisions).len()
            == revisions.len(),
        forall|i: int|
            0 <= i < zipped(names, revisions).len() ==> #[trigger] zipped(names, revisions)[i] == (
            names[i], revisions[i]),
{
}

/// Compile time reflection of a single or multiple [`ConcreteEvent`]s.
///
/// [`ConcreteEvent`]: super::Concrete
pub trait Concrete: Revisable + Static where <Self as Revisable>::Revision: 'static {
    /// List of all [`ConcreteEvent::REVISION`]s this event is composed of
    /// (including multiple levels of composition). May contain duplicates.
    ///
    /// [`ConcreteEvent::REVISION`]: super::Concrete::REVISION
    const REVISIONS: &'static [<Self as Revisable>::Revision];

    /// Returns all the pairs of [`StaticEvent::NAME`] and
    /// [`ConcreteEvent::REVISION`] this event is composed of (including
    /// multiple levels of composition).
    ///
    /// [`StaticEvent::NAME`]: super::Static::NAME
    /// [`ConcreteEvent::REVISION`]: super::Concrete::REVISION
    fn names_and_revisions_iter() -> (res: Vec<(Name, <Self as Revisable>::Revision)>)
        ensures
            res@ == zipped(Self::NAMES@, Self::REVISIONS@),
            res@.len() <= Self::NAMES@.len(),
            res@.len() <= Self::REVISIONS@.len(),
            res@.len() == Self::NAMES@.len() || res@.len() == Self::REVISIONS@.len(),
            forall|i: int|
                0 <= i < res@.len() ==> #[trigger] res@[i] == (Self::NAMES@[i], Self::REVISIONS@[i]),
    {
        let names = Self::NAMES;
        let revisions = Self::REVISIONS;
        let mut res: Vec<(Name, <Self as Revisable>::Revision)> = Vec::new();
        let mut i: usize = 0;
        while i < names.len() && i < revisions.len()
            invariant
                names@ == Self::NAMES@,
                revisions@ == Self::REVISIONS@,
                i <= names@.len(),
                i <= revisions@.len(),
                res@ =~= zipped(names@, revisions@).take(i as int),
            decreases names@.len() - i,
        {
            res.push((names[i], revisions[i]));
            i += 1;
        }
        res
    }
}

} // verus!
