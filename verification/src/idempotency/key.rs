use vstd::prelude::*;
use vstd::string::StrSliceExecFns;

verus! {

/// The longest token (in characters) accepted as an idempotency key.
pub const MAX_KEY_LENGTH: usize = 50;

/// A caller-supplied idempotency key is accepted when it is non-empty and no
/// longer than [`MAX_KEY_LENGTH`] characters.
pub open spec fn key_valid(s: Seq<char>) -> bool {
    1 <= s.len() <= MAX_KEY_LENGTH
}

/// Character-by-character string comparison, so that equality of the tokens
/// two callers supplied can be stated over their views.
pub fn str_eq(a: &str, b: &str) -> (r: bool)
    ensures
        r == (a@ == b@),
{
    let n = a.unicode_len();
    let m = b.unicode_len();
    if n != m {
        return false;
    }
    for i in 0..n
        invariant
            n == a@.len(),
            n == b@.len(),
            forall|j: int| 0 <= j < i ==> a@[j] == b@[j],
    {
        if a.get_char(i) != b.get_char(i) {
            return false;
        }
    }
    proof {
        assert(a@ =~= b@);
    }
    true
}

/// Error returned when a caller-supplied token is rejected as an idempotency
/// key: the token was empty, or longer than [`MAX_KEY_LENGTH`] characters.
#[derive(Debug, Clone, Copy, PartialEq, Eq, Structural)]
pub struct InvalidKey;

/// A validated idempotency key: an opaque token the caller controls, compared
/// only for equality. Uniqueness is scoped per account, not globally.
#[derive(Debug, Clone)]
pub struct IdempotencyKey {
    inner: String,
}

impl IdempotencyKey {
    /// The key as the character sequence of the accepted token.
    pub closed spec fn view(&self) -> Seq<char> {
        self.inner@
    }

    /// Every key that `parse` accepts satisfies the length bound.
    pub closed spec fn wf(&self) -> bool {
        key_valid(self.inner@)
    }

    /// Validates a caller-supplied token. Accepts exactly the non-empty
    /// tokens of at most [`MAX_KEY_LENGTH`] characters; no storage is
    /// touched.
    pub fn parse(raw: String) -> (r: Result<IdempotencyKey, InvalidKey>)
        ensures
            key_valid(raw@) <==> r is Ok,
            r matches Ok(k) ==> k@ == raw@ && k.wf(),
    {
        let n = raw.as_str().unicode_len();
        if 1 <= n && n <= MAX_KEY_LENGTH {
            Ok(IdempotencyKey { inner: raw })
        } else {
            Err(InvalidKey)
        }
    }

    /// The accepted token itself.
    pub fn as_str(&self) -> (r: &str)
        ensures
            r@ == self@,
    {
        self.inner.as_str()
    }
}

} // verus!
