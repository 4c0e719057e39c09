//! Code generation aiding [`Event`] machinery.
//!
//! [`Event`]: super::Event

use vstd::prelude::*;
use vstd::string::StringSliceAdditionalSpecFns;
use vstd::utf8::encode_utf8_decode_utf8;

verus! {

/// All the elements of the slices in `input`, one slice after another.
pub open spec fn concat_view<T>(input: Seq<&[T]>) -> Seq<T>
    decreases input.len(),
{
    if input.len() == 0 {
        Seq::empty()
    } else {
        concat_view(input.drop_last()) + input.last()@
    }
}

proof fn lemma_concat_view_step<T>(input: Seq<&[T]>, i: int)
    requires
        0 <= i < input.len(),
    ensures
        concat_view(input.take(i + 1)) == concat_view(input.take(i)) + input[i]@,
{
    assert(input.take(i + 1).drop_last() =~= input.take(i));
}

proof fn lemma_concat_view_prefix<T>(input: Seq<&[T]>, i: int)
    requires
        0 <= i <= input.len(),
    ensures
        concat_view(input.take(i)).len() <= concat_view(input).len(),
        concat_view(input.take(i)) =~= concat_view(input).take(
            concat_view(input.take(i)).len() as int,
        ),
    decreases input.len(),
{
    if i == input.len() {
        assert(input.take(i) =~= input);
    } else {
        let rest = input.drop_last();
        assert(input.take(i) =~= rest.take(i));
        lemma_concat_view_prefix(rest, i);
    }
}

/// Concatenates the specified slice of slices into an array of `LEN` size.
///
/// The total length of all the specified slices must be `LEN`, and must not
/// be zero.
pub fn concat_slices<T: Copy, const LEN: usize>(input: &[&[T]]) -> (res: [T; LEN])
    requires
        concat_view(input@).len() == LEN,
        LEN > 0,
    ensures
        res@ == concat_view(input@),
{
    let (mut i, mut total_len): (usize, usize) = (0, 0);
    let mut first_elem: Option<T> = None;
    while i < input.len()
        invariant
            i <= input@.len(),
            concat_view(input@).len() == LEN,
            total_len == concat_view(input@.take(i as int)).len(),
            first_elem is None <==> total_len == 0,
            first_elem matches Some(v) ==> v == concat_view(input@.take(i as int))[0],
        decreases input@.len() - i,
    {
        proof {
            lemma_concat_view_step(input@, i as int);
            lemma_concat_view_prefix(input@, i as int + 1);
        }
        total_len += input[i].len();
        if first_elem.is_none() && total_len > 0 {
            first_elem = Some(input[i][0]);
        }
        i += 1;
    }
    proof {
        assert(input@.take(input@.len() as int) =~= input@);
    }
    let default_value = first_elem.unwrap();

    let mut out = [default_value; LEN];
    let (mut i, mut n): (usize, usize) = (0, 0);
    while i < input.len()
        invariant
            i <= input@.len(),
            concat_view(input@).len() == LEN,
            out@.len() == LEN,
            n == concat_view(input@.take(i as int)).len(),
            out@.take(n as int) =~= concat_view(input@.take(i as int)),
        decreases input@.len() - i,
    {
        proof {
            lemma_concat_view_step(input@, i as int);
            lemma_concat_view_prefix(input@, i as int + 1);
        }
        let slice = input[i];
        let mut j: usize = 0;
        while j < slice.len()
            invariant
                i < input@.len(),
                slice@ == input@[i as int]@,
                j <= slice@.len(),
                out@.len() == LEN,
                concat_view(input@.take(i as int + 1)).len() <= LEN,
                concat_view(input@.take(i as int + 1)) == concat_view(input@.take(i as int))
                    + input@[i as int]@,
                n == concat_view(input@.take(i as int)).len() + j,
                out@.take(n as int) =~= concat_view(input@.take(i as int)) + slice@.take(j as int),
            decreases slice@.len() - j,
        {
            let ghost prev = out@;
            assert(n < LEN);
            out[n] = slice[j];
            assert(out@.take(n as int + 1) =~= prev.take(n as int).push(slice@[j as int]));
            assert(slice@.take(j as int + 1) =~= slice@.take(j as int).push(slice@[j as int]));
            n += 1;
            j += 1;
        }
        assert(slice@.take(j as int) =~= slice@);
        i += 1;
    }
    proof {
        assert(input@.take(input@.len() as int) =~= input@);
        assert(out@.take(n as int) =~= out@);
    }
    out
}

/// Concatenating two lists of slices joined gives the concatenation of each
/// list, one after the other.
pub proof fn lemma_concat_view_append<T>(a: Seq<&[T]>, b: Seq<&[T]>)
    ensures
        concat_view(a + b) == concat_view(a) + concat_view(b),
    decreases b.len(),
{
    if b.len() == 0 {
        assert(a + b =~= a);
        assert(concat_view(a) + concat_view(b) =~= concat_view(a));
    } else {
        lemma_concat_view_append(a, b.drop_last());
        assert((a + b).drop_last() =~= a + b.drop_last());
        assert((a + b).last() == b.last());
        assert(concat_view(a) + concat_view(b) =~= concat_view(a) + concat_view(b.drop_last())
            + b.last()@);
    }
}

/// A single slice concatenates to its own elements.
pub proof fn lemma_concat_view_single<T>(s: &[T])
    ensures
        concat_view(seq![s]) == s@,
{
    let one = seq![s];
    assert(one.len() == 1);
    assert(one.drop_last() =~= Seq::<&[T]>::empty());
    assert(concat_view(one.drop_last()) == Seq::<T>::empty());
    assert(one.last() == s);
    assert(concat_view(one) == concat_view(one.drop_last()) + one.last()@);
    assert(Seq::<T>::empty() + s@ =~= s@);
}

/// The slices of `input` that are not empty, in order.
pub open spec fn non_empty_slices<T>(input: Seq<&[T]>) -> Seq<&[T]> {
    input.filter(|s: &[T]| s@.len() > 0)
}

/// Empty slices add nothing to a concatenation: inserting or removing them
/// anywhere leaves it as it is.
pub proof fn lemma_concat_view_ignores_empty<T>(input: Seq<&[T]>)
    ensures
        concat_view(input) == concat_view(non_empty_slices(input)),
    decreases input.len(),
{
    reveal(Seq::filter);
    if input.len() > 0 {
        let rest = input.drop_last();
        lemma_concat_view_ignores_empty(rest);
        let kept = non_empty_slices(rest);
        if input.last()@.len() > 0 {
            assert(non_empty_slices(input) == kept.push(input.last()));
            assert(kept.push(input.last()).drop_last() =~= kept);
        } else {
            assert(non_empty_slices(input) == kept);
            assert(concat_view(rest) + input.last()@ =~= concat_view(rest));
        }
    }
}

/// Meta information of a single [`Event`] as seen by [`Reflect::META`]:
/// a unique Rust type identifier, a name and a stringified revision.
///
/// [`Event`]: super::Event
pub type Meta = (&'static str, &'static str, &'static str);

/// The mathematical view of one [`Meta`] entry.
pub open spec fn meta_view(m: (&str, &str, &str)) -> (Seq<char>, Seq<char>, Seq<char>) {
    (m.0@, m.1@, m.2@)
}

/// Whether the entries `a` and `b` describe different Rust types sharing the
/// same name and the same revision.
pub open spec fn conflicting(
    a: (Seq<char>, Seq<char>, Seq<char>),
    b: (Seq<char>, Seq<char>, Seq<char>),
) -> bool {
    &&& a.0 != b.0
    &&& a.1 == b.1
    &&& a.2 == b.2
}

/// Whether some two entries of `meta` describe different Rust types with the
/// same name and revision.
pub open spec fn has_conflict(meta: Seq<(&str, &str, &str)>) -> bool {
    exists|i: int, j: int|
        0 <= i < j < meta.len() && #[trigger] conflicting(meta_view(meta[i]), meta_view(meta[j]))
}

/// The elements of `input[k]` stand in `concat_view(input)` one after
/// another, right after those of the slices before it.
proof fn lemma_concat_view_block<T>(input: Seq<&[T]>, k: int, j: int)
    requires
        0 <= k < input.len(),
        0 <= j < input[k]@.len(),
    ensures
        concat_view(input.take(k)).len() + j < concat_view(input).len(),
        concat_view(input)[concat_view(input.take(k)).len() + j] == input[k]@[j],
{
    let o = concat_view(input.take(k)).len();
    lemma_concat_view_step(input, k);
    lemma_concat_view_prefix(input, k + 1);
    assert(concat_view(input.take(k + 1))[o + j] == input[k]@[j]);
    assert(concat_view(input)[o + j] == concat_view(input).take(
        concat_view(input.take(k + 1)).len() as int,
    )[o + j]);
}

/// A conflict within one of the `input` slices stays a conflict once they are
/// concatenated: an enum whose `META` concatenates those of its variants
/// inherits every conflict of theirs.
pub proof fn lemma_conflict_survives_concat(input: Seq<&[Meta]>, k: int)
    requires
        0 <= k < input.len(),
        has_conflict(input[k]@),
    ensures
        has_conflict(concat_view(input)),
{
    let meta = input[k]@;
    let (i, j) = choose|i: int, j: int|
        0 <= i < j < meta.len() && #[trigger] conflicting(meta_view(meta[i]), meta_view(meta[j]));
    let o = concat_view(input.take(k)).len() as int;
    lemma_concat_view_block(input, k, i);
    lemma_concat_view_block(input, k, j);
    let all = concat_view(input);
    assert(conflicting(meta_view(all[o + i]), meta_view(all[o + j])));
}

/// Two entries conflict exactly when they describe different Rust types with
/// equal names and equal revisions, as strings.
pub proof fn lemma_conflict_is_same_name_and_revision(meta: Seq<(&str, &str, &str)>)
    ensures
        has_conflict(meta) == (exists|i: int, j: int|
            0 <= i < j < meta.len() && #[trigger] meta[i].0@ != #[trigger] meta[j].0@ && meta[i].1@ == meta[j].1@
                && meta[i].2@ == meta[j].2@),
{
    if has_conflict(meta) {
        let (i, j) = choose|i: int, j: int|
            0 <= i < j < meta.len() && #[trigger] conflicting(meta_view(meta[i]), meta_view(meta[j]));
        assert(meta[i].0@ != meta[j].0@ && meta[i].1@ == meta[j].1@ && meta[i].2@ == meta[j].2@);
    }
    if exists|i: int, j: int|
        0 <= i < j < meta.len() && #[trigger] meta[i].0@ != #[trigger] meta[j].0@ && meta[i].1@ == meta[j].1@
            && meta[i].2@ == meta[j].2@ {
        let (i, j) = choose|i: int, j: int|
            0 <= i < j < meta.len() && #[trigger] meta[i].0@ != #[trigger] meta[j].0@ && meta[i].1@
                == meta[j].1@ && meta[i].2@ == meta[j].2@;
        assert(conflicting(meta_view(meta[i]), meta_view(meta[j])));
    }
}

/// Whether `f` and `g` are inverse bijections between the positions of `a`
/// and `b` that carry each entry of `b` to an equal entry of `a`: `b` is a
/// permutation of `a`.
pub open spec fn is_permutation<A>(
    a: Seq<A>,
    b: Seq<A>,
    f: spec_fn(int) -> int,
    g: spec_fn(int) -> int,
) -> bool {
    &&& a.len() == b.len()
    &&& forall|k: int|
        0 <= k < b.len() ==> 0 <= #[trigger] f(k) < a.len() && b[k] == a[f(k)] && g(f(k)) == k
    &&& forall|i: int| 0 <= i < a.len() ==> 0 <= #[trigger] g(i) < b.len() && f(g(i)) == i
}

/// A conflict in `a` is one in any permutation `b` of it.
proof fn lemma_conflict_permuted(
    a: Seq<(&str, &str, &str)>,
    b: Seq<(&str, &str, &str)>,
    f: spec_fn(int) -> int,
    g: spec_fn(int) -> int,
)
    requires
        is_permutation(a, b, f, g),
        has_conflict(a),
    ensures
        has_conflict(b),
{
    let (i, j) = choose|i: int, j: int|
        0 <= i < j < a.len() && #[trigger] conflicting(meta_view(a[i]), meta_view(a[j]));
    let (x, y) = (g(i), g(j));
    assert(b[x] == a[f(x)] && f(x) == i);
    assert(b[y] == a[f(y)] && f(y) == j);
    if x < y {
        assert(conflicting(meta_view(b[x]), meta_view(b[y])));
    } else {
        assert(conflicting(meta_view(b[y]), meta_view(b[x])));
    }
}

/// The order of the entries of `META` does not matter: a permutation of them
/// has a conflict exactly when they do.
pub proof fn lemma_conflict_ignores_order(
    a: Seq<(&str, &str, &str)>,
    b: Seq<(&str, &str, &str)>,
    f: spec_fn(int) -> int,
    g: spec_fn(int) -> int,
)
    requires
        is_permutation(a, b, f, g),
    ensures
        has_conflict(a) == has_conflict(b),
{
    if has_conflict(a) {
        lemma_conflict_permuted(a, b, f, g);
    }
    if has_conflict(b) {
        assert(is_permutation(b, a, g, f));
        lemma_conflict_permuted(b, a, g, f);
    }
}

/// Compile time reflection of an [`Event`] (either a single or multiple
/// [`StaticEvent`]s or [`ConcreteEvent`]s), used by code generation to check
/// [`Event`] properties.
///
/// [`Event`]: super::Event
/// [`StaticEvent`]: super::Static
/// [`ConcreteEvent`]: super::Concrete
pub trait Reflect {
    /// Meta information of this [`Event`], containing all its combinations of:
    /// - unique Rust type identifier;
    /// - [`StaticEvent::NAME`];
    /// - stringified [`ConcreteEvent::REVISION`].
    ///
    /// [`Event`]: super::Event
    /// [`StaticEvent::NAME`]: super::Static::NAME
    /// [`ConcreteEvent::REVISION`]: super::Concrete::REVISION
    const META: &'static [Meta];
}

/// Checks whether all the combinations of [`StaticEvent::NAME`] and
/// [`ConcreteEvent::REVISION`] in [`Reflect::META`] correspond to different
/// Rust types.
///
/// [`StaticEvent::NAME`]: super::Static::NAME
/// [`ConcreteEvent::REVISION`]: super::Concrete::REVISION
pub fn has_different_types_with_same_name_and_revision<E: Reflect>() -> (res: bool)
    ensures
        res == has_conflict(E::META@),
        res == (exists|i: int, j: int|
            0 <= i < j < E::META@.len() && #[trigger] E::META@[i].0@ != #[trigger] E::META@[j].0@ && E::META@[i].1@ == E::META@[j].1@
                && E::META@[i].2@ == E::META@[j].2@),
{
    has_conflicting_entries(E::META)
}

/// Checks whether some two of the `events` entries describe different Rust
/// types with the same name and revision.
pub fn has_conflicting_entries(events: &[Meta]) -> (res: bool)
    ensures
        res == has_conflict(events@),
        res == (exists|i: int, j: int|
            0 <= i < j < events@.len() && #[trigger] events@[i].0@ != #[trigger] events@[j].0@ && events@[i].1@ == events@[j].1@
                && events@[i].2@ == events@[j].2@),
{
    proof {
        lemma_conflict_is_same_name_and_revision(events@);
    }
    let len = events.len();
    let mut outer: usize = 0;
    while outer < len
        invariant
            len == events@.len(),
            outer <= len,
            forall|i: int, j: int|
                0 <= i < outer && i < j < len ==> !#[trigger] conflicting(
                    meta_view(events@[i]),
                    meta_view(events@[j]),
                ),
        decreases len - outer,
    {
        let mut inner: usize = outer + 1;
        while inner < len
            invariant
                len == events@.len(),
                    outer < len,
                outer + 1 <= inner <= len,
                forall|i: int, j: int|
                    0 <= i < outer && i < j < len ==> !#[trigger] conflicting(
                        meta_view(events@[i]),
                        meta_view(events@[j]),
                    ),
                forall|j: int|
                    outer < j < inner ==> !#[trigger] conflicting(
                        meta_view(events@[outer as int]),
                        meta_view(events@[j]),
                    ),
            decreases len - inner,
        {
            let (inner_ty, inner_name, inner_rev) = events[inner];
            let (outer_ty, outer_name, outer_rev) = events[outer];
            if !str_eq(inner_ty, outer_ty) && str_eq(inner_name, outer_name) && str_eq(
                inner_rev,
                outer_rev,
            ) {
                assert(conflicting(meta_view(events@[outer as int]), meta_view(events@[inner as int])));
                return true;
            }
            inner += 1;
        }
        outer += 1;
    }
    false
}

/// Compares strings byte by byte.
pub(crate) fn str_eq(l: &str, r: &str) -> (res: bool)
    ensures
        res == (l@ == r@),
{
    let lb = l.as_bytes();
    let rb = r.as_bytes();
    if lb.len() != rb.len() {
        return false;
    }
    let mut i: usize = 0;
    while i < lb.len()
        invariant
            lb@ == l.spec_bytes(),
            rb@ == r.spec_bytes(),
            lb@.len() == rb@.len(),
            i <= lb@.len(),
            forall|k: int| 0 <= k < i ==> lb@[k] == rb@[k],
        decreases lb@.len() - i,
    {
        if lb[i] != rb[i] {
            return false;
        }
        i += 1;
    }
    proof {
        assert(l.spec_bytes() =~= r.spec_bytes());
        encode_utf8_decode_utf8(l@);
        encode_utf8_decode_utf8(r@);
    }
    true
}

} // verus!
