use vstd::prelude::*;
use vstd::string::StrSliceExecFns;

verus! {

/// One response header, as persisted: the header name and the raw value
/// bytes. Order and duplicate names are preserved by the record, so a saved
/// response carries a list of these pairs rather than a map.
pub struct HeaderPairRecord {
    pub name: String,
    pub value: Vec<u8>,
}

/// The mathematical content of a header pair.
pub ghost struct HeaderPairView {
    pub name: Seq<char>,
    pub value: Seq<u8>,
}

impl View for HeaderPairRecord {
    type V = HeaderPairView;

    open spec fn view(&self) -> HeaderPairView {
        HeaderPairView { name: self.name@, value: self.value@ }
    }
}

impl DeepView for HeaderPairRecord {
    type V = HeaderPairView;

    open spec fn deep_view(&self) -> HeaderPairView {
        self.view()
    }
}

/// A header name is a non-empty token: every character is a digit, a letter,
/// or one of the punctuation characters that header-name grammar allows.
pub open spec fn header_name_char_ok(c: char) -> bool {
    ||| '0' as u32 <= c as u32 <= '9' as u32
    ||| 'a' as u32 <= c as u32 <= 'z' as u32
    ||| 'A' as u32 <= c as u32 <= 'Z' as u32
    ||| c == '!' || c == '#' || c == '$' || c == '%' || c == '&' || c == '\'' || c == '*'
    ||| c == '+' || c == '-' || c == '.' || c == '^' || c == '_' || c == '`' || c == '|'
    ||| c == '~'
}

/// Validity of a stored header name.
pub open spec fn header_name_ok(name: Seq<char>) -> bool {
    name.len() > 0 && (forall|i: int| 0 <= i < name.len() ==> header_name_char_ok(#[trigger] name[i]))
}

/// A header value byte may be a horizontal tab or any byte from space
/// onwards except delete.
pub open spec fn header_value_byte_ok(b: u8) -> bool {
    b == 9 || (32 <= b && b != 127)
}

/// Validity of stored header value bytes.
pub open spec fn header_value_ok(value: Seq<u8>) -> bool {
    forall|i: int| 0 <= i < value.len() ==> header_value_byte_ok(#[trigger] value[i])
}

/// A stored pair decodes back into a response header only when both halves
/// are valid.
pub open spec fn header_pair_ok(p: HeaderPairView) -> bool {
    header_name_ok(p.name) && header_value_ok(p.value)
}

/// A status code of an HTTP response proper.
pub open spec fn status_code_ok(status: u16) -> bool {
    100 <= status <= 999
}

/// Runtime check matching [`header_name_ok`].
pub fn check_header_name(name: &str) -> (r: bool)
    ensures
        r == header_name_ok(name@),
{
    let n = name.unicode_len();
    if n == 0 {
        return false;
    }
    for i in 0..n
        invariant
            n == name@.len(),
            forall|j: int| 0 <= j < i ==> header_name_char_ok(#[trigger] name@[j]),
    {
        let c = name.get_char(i);
        let ok = ('0' <= c && c <= '9') || ('a' <= c && c <= 'z') || ('A' <= c && c <= 'Z')
            || c == '!' || c == '#' || c == '$' || c == '%' || c == '&' || c == '\'' || c == '*'
            || c == '+' || c == '-' || c == '.' || c == '^' || c == '_' || c == '`' || c == '|'
            || c == '~';
        if !ok {
            return false;
        }
    }
    true
}

/// Runtime check matching [`header_value_ok`].
pub fn check_header_value(value: &Vec<u8>) -> (r: bool)
    ensures
        r == header_value_ok(value@),
{
    for i in 0..value.len()
        invariant
            forall|j: int| 0 <= j < i ==> header_value_byte_ok(#[trigger] value@[j]),
    {
        let b = value[i];
        if !(b == 9 || (32 <= b && b != 127)) {
            return false;
        }
    }
    true
}

/// An in-memory reconstruction of a persisted response: status code, ordered
/// header pairs, and the raw body bytes. This is what a duplicate caller is
/// answered with.
pub struct SavedResponse {
    pub status_code: u16,
    pub headers: Vec<HeaderPairRecord>,
    pub body: Vec<u8>,
}

/// The mathematical content of a saved response.
pub ghost struct SavedResponseView {
    pub status_code: u16,
    pub headers: Seq<HeaderPairView>,
    pub body: Seq<u8>,
}

impl View for SavedResponse {
    type V = SavedResponseView;

    open spec fn view(&self) -> SavedResponseView {
        SavedResponseView {
            status_code: self.status_code,
            headers: self.headers.deep_view(),
            body: self.body@,
        }
    }
}

impl SavedResponseView {
    /// A response as an HTTP layer would actually hand it over: a proper
    /// status code and only valid header pairs. Such a response survives a
    /// save/load round trip byte for byte.
    pub open spec fn wf(self) -> bool {
        &&& status_code_ok(self.status_code)
        &&& forall|i: int| 0 <= i < self.headers.len() ==> header_pair_ok(#[trigger] self.headers[i])
    }
}

impl SavedResponse {
    /// Runtime check matching [`SavedResponseView::wf`].
    pub fn is_wellformed(&self) -> (r: bool)
        ensures
            r == self@.wf(),
    {
        if !(100 <= self.status_code && self.status_code <= 999) {
            return false;
        }
        for i in 0..self.headers.len()
            invariant
                forall|j: int| 0 <= j < i ==> header_pair_ok(#[trigger] self.headers.deep_view()[j]),
        {
            let name_ok = check_header_name(self.headers[i].name.as_str());
            let value_ok = check_header_value(&self.headers[i].value);
            if !(name_ok && value_ok) {
                assert(self@.headers[i as int] == self.headers[i as int]@);
                return false;
            }
        }
        true
    }
}

/// Copies a byte vector; the copy holds the same bytes.
pub fn clone_bytes(v: &Vec<u8>) -> (r: Vec<u8>)
    ensures
        r@ == v@,
{
    let r = v.clone();
    assert(r@ =~= v@);
    r
}

/// Copies a header pair list; the copy holds the same pairs.
pub fn clone_headers(v: &Vec<HeaderPairRecord>) -> (r: Vec<HeaderPairRecord>)
    ensures
        r.deep_view() == v.deep_view(),
{
    let mut r: Vec<HeaderPairRecord> = Vec::new();
    for i in 0..v.len()
        invariant
            r.len() == i,
            forall|j: int| 0 <= j < i ==> r.deep_view()[j] == #[trigger] v.deep_view()[j],
    {
        let name = v[i].name.clone();
        let value = clone_bytes(&v[i].value);
        r.push(HeaderPairRecord { name, value });
    }
    assert(r.deep_view() =~= v.deep_view());
    r
}

} // verus!
