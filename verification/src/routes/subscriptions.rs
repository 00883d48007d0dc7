use vstd::prelude::*;

verus! {

/// A raw subscription form, as submitted: both fields still unvalidated.
pub struct SubscribeData {
    pub name: String,
    pub email: String,
}

} // verus!
