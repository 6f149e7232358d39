//! How results of executable functions are compared with their models.

use vstd::prelude::*;

verus! {

/// `r` succeeds or fails as `m` does, with a value whose view is that of `m`.
pub open spec fn same_outcome<T: View, E: View>(r: Result<T, E>, m: Result<T::V, E::V>) -> bool {
    match (r, m) {
        (Ok(a), Ok(b)) => a@ == b,
        (Err(a), Err(b)) => a@ == b,
        _ => false,
    }
}

/// `r` fails as `m` says, or succeeds if `m` holds no error.
pub open spec fn same_failure<E: View>(r: Result<(), E>, m: Option<E::V>) -> bool {
    match (r, m) {
        (Ok(_), None) => true,
        (Err(a), Some(b)) => a@ == b,
        _ => false,
    }
}

} // verus!
