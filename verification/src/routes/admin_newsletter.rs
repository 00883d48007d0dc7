use vstd::prelude::*;

verus! {

/// A newsletter issue as submitted through the admin form, carrying the
/// caller-supplied idempotency key that deduplicates the send.
pub struct BodyData {
    pub title: String,
    pub text_content: String,
    pub html_content: String,
    pub idempotency_key: String,
}

} // verus!
