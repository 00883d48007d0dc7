use vstd::prelude::*;

verus! {

/// A newsletter issue as submitted to the publishing endpoint that
/// authenticates by credentials.
pub struct BodyData {
    pub title: String,
    pub content: Content,
}

/// The two renderings of a newsletter issue.
pub struct Content {
    pub html: String,
    pub text: String,
}

} // verus!
