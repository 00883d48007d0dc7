use vstd::prelude::*;
use vstd::string::{StrSliceExecFns, StringExecFns};

verus! {

/// The longest name (in characters) accepted for a subscriber.
pub const MAX_NAME_LENGTH: usize = 256;

/// Characters that may not appear in a subscriber name.
pub open spec fn name_char_forbidden(c: char) -> bool {
    c == '/' || c == '(' || c == ')' || c == '"' || c == '<' || c == '>' || c == '\\' || c == '{'
        || c == '}'
}

/// ASCII whitespace; a name made only of these is rejected as empty.
pub open spec fn name_char_whitespace(c: char) -> bool {
    c == ' ' || c == '\t' || c == '\n' || c == '\r'
}

/// A subscriber name is accepted when it is not all whitespace, is no longer
/// than [`MAX_NAME_LENGTH`] characters, and contains no forbidden character.
pub open spec fn name_valid(s: Seq<char>) -> bool {
    &&& s.len() <= MAX_NAME_LENGTH
    &&& exists|i: int| 0 <= i < s.len() && !name_char_whitespace(#[trigger] s[i])
    &&& forall|i: int| 0 <= i < s.len() ==> !name_char_forbidden(#[trigger] s[i])
}

/// The display name of a subscriber, validated on entry.
#[derive(Debug, Clone)]
pub struct SubscriberName {
    inner: String,
}

impl SubscriberName {
    /// The accepted name as a character sequence.
    pub closed spec fn view(&self) -> Seq<char> {
        self.inner@
    }

    /// Accepts exactly the valid names; the accepted value carries the
    /// string unchanged.
    pub fn parse(s: String) -> (r: Result<SubscriberName, String>)
        ensures
            name_valid(s@) <==> r is Ok,
            r matches Ok(n) ==> n@ == s@,
    {
        let n = s.as_str().unicode_len();
        if n > MAX_NAME_LENGTH {
            return Err(s.concat(" is not a valid subscriber name"));
        }
        let mut has_content = false;
        for i in 0..n
            invariant
                n == s@.len(),
                has_content == exists|j: int|
                    0 <= j < i && !name_char_whitespace(#[trigger] s@[j]),
                forall|j: int| 0 <= j < i ==> !name_char_forbidden(#[trigger] s@[j]),
        {
            let c = s.as_str().get_char(i);
            if c == '/' || c == '(' || c == ')' || c == '"' || c == '<' || c == '>' || c == '\\'
                || c == '{' || c == '}' {
                return Err(s.concat(" is not a valid subscriber name"));
            }
            if !(c == ' ' || c == '\t' || c == '\n' || c == '\r') {
                has_content = true;
            }
        }
        if has_content {
            Ok(SubscriberName { inner: s })
        } else {
            Err(s.concat(" is not a valid subscriber name"))
        }
    }

    /// Hands the name back out as the string it was parsed from.
    pub fn into_inner(self) -> (r: String)
        ensures
            r@ == self@,
    {
        self.inner
    }

    /// The name as a borrowed string.
    pub fn inner_ref(&self) -> (r: &str)
        ensures
            r@ == self@,
    {
        self.inner.as_str()
    }
}

} // verus!
