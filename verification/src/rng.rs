use vstd::prelude::*;

verus! {

/// A byte drawn from `rand::random::<u8>()`, which samples the thread-local
/// generator. Nothing is stated of the value: it is random.
#[verifier::external_body]
pub(crate) fn random_byte() -> u8 {
    rand::random::<u8>()
}

} // verus!
