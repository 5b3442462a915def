//! Declarations of what the buffer takes from outside this crate.

use cache_line_size::CacheAligned;
use std::sync::Arc;
use vstd::prelude::*;

verus! {

/// `cache_line_size::CacheAligned`, a wrapper that aligns its content to a cache line.
/// Its content is opaque here.
#[verifier::external_type_specification]
#[verifier::external_body]
#[verifier::reject_recursive_types(T)]
pub struct ExCacheAligned<T: Sized>(CacheAligned<T>);

/// `cache_line_size::CacheAligned::new`, which wraps `v`. Nothing is stated of the
/// result: the only content used here is an atomic, whose value no specification tracks either.
pub assume_specification<T>[ CacheAligned::<T>::new ](v: T) -> CacheAligned<T>;

/// `std::sync::Arc::clone`: a second handle to the same allocation, so it holds the same
/// value.
#[verifier::external_body]
pub(crate) fn arc_clone<T>(a: &Arc<T>) -> (r: Arc<T>)
    ensures
        *r == **a,
{
    Arc::clone(a)
}

/// `std::sync::Arc::try_unwrap`: the inner value if `a` is the only strong handle, otherwise
/// `a` itself, unchanged.
#[verifier::external_body]
pub(crate) fn arc_try_unwrap<T>(a: Arc<T>) -> (r: Result<T, Arc<T>>)
    ensures
        match r {
            Ok(v) => v == *a,
            Err(b) => *b == *a,
        },
{
    Arc::try_unwrap(a)
}

} // verus!
