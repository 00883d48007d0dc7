//! The request payload shapes the library validates and consumes. The
//! surrounding web layer deserializes into copies of these and converts.

pub mod admin_newsletter;
pub mod newsletters;
pub mod subscription_confirm;
pub mod subscriptions;
