//! Utils for ensuring that every event variant's combination of name and
//! version corresponds to a single Rust type.

use vstd::prelude::*;

use crate::es::event::codegen::str_eq;

verus! {

/// Tracking of the number of versioned events.
pub trait UniqueEvents {
    /// Number of versioned events in this event.
    const COUNT: usize;
}

/// Whether the entries `a` and `b` describe different Rust types sharing the
/// same name and version.
pub open spec fn duplicated(a: (&str, &str, u16), b: (&str, &str, u16)) -> bool {
    &&& a.0@ != b.0@
    &&& a.1@ == b.1@
    &&& a.2 == b.2
}

/// Whether some two of the `events` describe different Rust types with the
/// same name and version.
pub open spec fn has_duplicated_pair(events: Seq<(&str, &str, u16)>) -> bool {
    exists|i: int, j: int| 0 <= i < j < events.len() && #[trigger] duplicated(events[i], events[j])
}

/// Two events are duplicated exactly when they describe different Rust types
/// with equal names, as strings, and equal versions.
pub proof fn lemma_duplicate_is_same_name_and_version(events: Seq<(&str, &str, u16)>)
    ensures
        has_duplicated_pair(events) == (exists|i: int, j: int|
            0 <= i < j < events.len() && #[trigger] events[i].0@ != #[trigger] events[j].0@ && events[i].1@ == events[j].1@
                && events[i].2 == events[j].2),
{
    if has_duplicated_pair(events) {
        let (i, j) = choose|i: int, j: int|
            0 <= i < j < events.len() && #[trigger] duplicated(events[i], events[j]);
        assert(events[i].0@ != events[j].0@ && events[i].1@ == events[j].1@ && events[i].2
            == events[j].2);
    }
    if exists|i: int, j: int|
        0 <= i < j < events.len() && #[trigger] events[i].0@ != #[trigger] events[j].0@ && events[i].1@ == events[j].1@
            && events[i].2 == events[j].2 {
        let (i, j) = choose|i: int, j: int|
            0 <= i < j < events.len() && #[trigger] events[i].0@ != #[trigger] events[j].0@
                && events[i].1@ == events[j].1@ && events[i].2 == events[j].2;
        assert(duplicated(events[i], events[j]));
    }
}

/// Checks whether the given array of `events` combinations of name and version
/// corresponds to different Rust types.
pub fn has_duplicates<const N: usize>(events: [(&str, &str, u16); N]) -> (res: bool)
    ensures
        res == has_duplicated_pair(events@),
        res == (exists|i: int, j: int|
            0 <= i < j < events@.len() && #[trigger] events@[i].0@ != #[trigger] events@[j].0@ && events@[i].1@ == events@[j].1@
                && events@[i].2 == events@[j].2),
{
    proof {
        lemma_duplicate_is_same_name_and_version(events@);
    }
    let mut outer: usize = 0;
    while outer < N
        invariant
            events@.len() == N,
            outer <= N,
            forall|i: int, j: int|
                0 <= i < outer && i < j < N ==> !#[trigger] duplicated(events@[i], events@[j]),
        decreases N - outer,
    {
        let mut inner: usize = outer + 1;
        while inner < N
            invariant
                events@.len() == N,
                outer < N,
                outer + 1 <= inner <= N,
                forall|i: int, j: int|
                    0 <= i < outer && i < j < N ==> !#[trigger] duplicated(events@[i], events@[j]),
                forall|j: int|
                    outer < j < inner ==> !#[trigger] duplicated(events@[outer as int], events@[j]),
            decreases N - inner,
        {
            let (inner_ty, inner_name, inner_ver) = events[inner];
            let (outer_ty, outer_name, outer_ver) = events[outer];
            if !str_eq(inner_ty, outer_ty) && str_eq(inner_name, outer_name) && inner_ver
                == outer_ver {
                assert(duplicated(events@[outer as int], events@[inner as int]));
                return true;
            }
            inner += 1;
        }
        outer += 1;
    }
    false
}

/// Whether `h` carries the positions of `small` to increasing positions of
/// `large` holding the same entries: `large` is `small` with entries inserted.
pub open spec fn is_embedding<A>(small: Seq<A>, large: Seq<A>, h: spec_fn(int) -> int) -> bool {
    &&& forall|i: int|
        0 <= i < small.len() ==> 0 <= #[trigger] h(i) < large.len() && large[h(i)] == small[i]
    &&& forall|i: int, j: int| 0 <= i < j < small.len() ==> #[trigger] h(i) < #[trigger] h(j)
}

/// Adding entries keeps a duplicate: if `events` has different types with the
/// same name and version, so does any list of events they are inserted into.
pub proof fn lemma_duplicates_survive_insertion(
    events: Seq<(&str, &str, u16)>,
    larger: Seq<(&str, &str, u16)>,
    h: spec_fn(int) -> int,
)
    requires
        is_embedding(events, larger, h),
        has_duplicated_pair(events),
    ensures
        has_duplicated_pair(larger),
{
    let (i, j) = choose|i: int, j: int|
        0 <= i < j < events.len() && #[trigger] duplicated(events[i], events[j]);
    assert(h(i) < h(j));
    assert(duplicated(larger[h(i)], larger[h(j)]));
}

} // verus!
