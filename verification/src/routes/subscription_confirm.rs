use vstd::prelude::*;

verus! {

/// The query parameters of a subscription confirmation link.
pub struct Parameters {
    pub subscription_token: String,
}

} // verus!
