use vstd::prelude::*;
use vstd::string::StringExecFns;

verus! {

/// Whether a string is an email address under the HTML5 rules that the
/// `validator` crate implements. The result depends on the characters alone.
pub uninterp spec fn email_valid(s: Seq<char>) -> bool;

/// Relies on `validator::validate_email`: a pure check of the string against
/// the HTML5 email shape. Its source rejects an empty string, and any string
/// without an `@`, before all further checks.
#[verifier::external_body]
fn email_check(s: &str) -> (r: bool)
    ensures
        r == email_valid(s@),
        s@.len() == 0 ==> !r,
        (forall|i: int| 0 <= i < s@.len() ==> s@[i] != '@') ==> !r,
{
    validator::validate_email(s)
}

/// The email address of a subscriber, validated on entry and treated as
/// opaque afterwards.
#[derive(Debug, Clone)]
pub struct SubscriberEmail {
    inner: String,
}

impl SubscriberEmail {
    /// The accepted address as a character sequence.
    pub closed spec fn view(&self) -> Seq<char> {
        self.inner@
    }

    /// Accepts exactly the strings that pass the email check; the accepted
    /// value carries the string unchanged.
    pub fn parse(s: String) -> (r: Result<SubscriberEmail, String>)
        ensures
            email_valid(s@) <==> r is Ok,
            r matches Ok(e) ==> e@ == s@,
    {
        if email_check(s.as_str()) {
            Ok(SubscriberEmail { inner: s })
        } else {
            Err(s.concat(" is not a valid subscriber email"))
        }
    }

    /// Hands the address back out as the string it was parsed from.
    pub fn into_inner(self) -> (r: String)
        ensures
            r@ == self@,
    {
        self.inner
    }

    /// The address as a borrowed string.
    pub fn inner_ref(&self) -> (r: &str)
        ensures
            r@ == self@,
    {
        self.inner.as_str()
    }
}

} // verus!
