use vstd::prelude::*;

verus! {

/// The repository's error taxonomy. A lookup that matches nothing is
/// `NotFound`; every other store-side failure (a violated uniqueness
/// constraint, an exhausted identifier range, a failed hashing step) is
/// collapsed into the one opaque `InternalServerError` kind, hiding the
/// root cause from callers by design.
#[derive(Clone, Copy, Debug, PartialEq, Eq, Structural)]
pub enum Exception {
    NotFound,
    InternalServerError,
}

} // verus!
