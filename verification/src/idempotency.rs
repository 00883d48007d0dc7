//! The idempotency engine: key validation, the persisted record model, and
//! the decision gate that admits a request exactly once per (account, key).

pub mod codec;
pub mod key;
pub mod laws;
pub mod persistance;
pub mod response;

pub use key::IdempotencyKey;
pub use key::InvalidKey;
pub use response::HeaderPairRecord;
pub use response::SavedResponse;
