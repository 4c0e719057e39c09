//! Helpers with a little bit of type magic.

use vstd::prelude::*;

verus! {

/// Helper to hack around specialization: marks a context borrowed as a
/// trait object.
#[derive(Clone, Copy, Debug)]
pub struct Borrowed<T: ?Sized>(pub T);

} // verus!
