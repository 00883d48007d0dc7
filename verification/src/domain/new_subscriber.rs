use vstd::prelude::*;

use crate::domain::subscriber_email::{email_valid, SubscriberEmail};
use crate::domain::subscriber_name::{name_valid, SubscriberName};
use crate::routes::subscriptions::SubscribeData;

verus! {

/// A subscription request whose name and email address have both passed
/// validation.
pub struct NewSubscriber {
    pub email: SubscriberEmail,
    pub name: SubscriberName,
}

impl NewSubscriber {
    /// Validates a raw subscription form. Accepted exactly when both fields
    /// are; the accepted value carries both fields unchanged.
    pub fn try_from(value: SubscribeData) -> (r: Result<NewSubscriber, String>)
        ensures
            (name_valid(value.name@) && email_valid(value.email@)) <==> r is Ok,
            r matches Ok(ns) ==> ns.name@ == value.name@ && ns.email@ == value.email@,
    {
        let name = match SubscriberName::parse(value.name) {
            Ok(name) => name,
            Err(e) => {
                return Err(e);
            },
        };
        let email = match SubscriberEmail::parse(value.email) {
            Ok(email) => email,
            Err(e) => {
                return Err(e);
            },
        };
        Ok(NewSubscriber { email, name })
    }
}

} // verus!
