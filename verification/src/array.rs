use vstd::prelude::*;

verus! {

/// Builds an array by calling `array_init::array_init`, which calls `f` once
/// for each index from 0 to N - 1 and stores what it returns at that index.
/// Trusted: `f` may be called at every index below N, and the element at each
/// index is a value that `f` can return for it.
#[verifier::external_body]
pub(crate) fn array_from_fn<T, F: Fn(usize) -> T, const N: usize>(f: F) -> (a: [T; N])
    requires
        forall|i: usize| i < N ==> call_requires(f, (i,)),
    ensures
        forall|i: usize| i < N ==> call_ensures(f, (i,), #[trigger] a@[i as int]),
{
    array_init::array_init(f)
}

} // verus!
