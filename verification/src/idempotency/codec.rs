use vstd::prelude::*;

use crate::idempotency::response::{
    check_header_name, check_header_value, clone_bytes, header_pair_ok, HeaderPairRecord,
    HeaderPairView, SavedResponse, SavedResponseView,
};

verus! {

/// The header pairs that survive decoding: the valid pairs, in stored order.
/// Pairs with a malformed name or value are silently dropped, so a damaged
/// record still replays what can be replayed.
pub open spec fn kept_headers(hs: Seq<HeaderPairView>) -> Seq<HeaderPairView>
    decreases hs.len(),
{
    if hs.len() == 0 {
        Seq::empty()
    } else {
        let rest = kept_headers(hs.drop_last());
        if header_pair_ok(hs.last()) {
            rest.push(hs.last())
        } else {
            rest
        }
    }
}

/// What the persisted response columns of a record decode to. `None` when
/// any column is still unset (the record is a pending marker) or the stored
/// status code is not a status code of an HTTP response.
pub open spec fn decode_columns(
    status: Option<i16>,
    headers: Option<Seq<HeaderPairView>>,
    body: Option<Seq<u8>>,
) -> Option<SavedResponseView> {
    match (status, headers, body) {
        (Some(s), Some(hs), Some(b)) => {
            if 100 <= s <= 999 {
                Some(
                    SavedResponseView {
                        status_code: s as u16,
                        headers: kept_headers(hs),
                        body: b,
                    },
                )
            } else {
                None
            }
        },
        _ => None,
    }
}

/// The column values that persisting a response writes into its record.
pub open spec fn encoded_status(r: SavedResponseView) -> Option<i16> {
    Some(r.status_code as i16)
}

/// The header column written for a response: the pairs exactly as carried.
pub open spec fn encoded_headers(r: SavedResponseView) -> Option<Seq<HeaderPairView>> {
    Some(r.headers)
}

/// The body column written for a response: the body bytes exactly as carried.
pub open spec fn encoded_body(r: SavedResponseView) -> Option<Seq<u8>> {
    Some(r.body)
}

/// The view of an optional header column.
pub open spec fn opt_headers_view(h: &Option<Vec<HeaderPairRecord>>) -> Option<Seq<HeaderPairView>> {
    match h {
        Some(v) => Some(v.deep_view()),
        None => None,
    }
}

/// The view of an optional body column.
pub open spec fn opt_bytes_view(b: &Option<Vec<u8>>) -> Option<Seq<u8>> {
    match b {
        Some(v) => Some(v@),
        None => None,
    }
}

/// Every pair of a sequence of valid pairs is kept, so decoding keeps the
/// sequence unchanged.
pub proof fn lemma_kept_headers_all_ok(hs: Seq<HeaderPairView>)
    requires
        forall|i: int| 0 <= i < hs.len() ==> header_pair_ok(#[trigger] hs[i]),
    ensures
        kept_headers(hs) == hs,
    decreases hs.len(),
{
    if hs.len() == 0 {
        assert(kept_headers(hs) =~= hs);
    } else {
        lemma_kept_headers_all_ok(hs.drop_last());
        assert(kept_headers(hs) =~= hs);
    }
}

/// Law: persisting a well-formed response and decoding its record gives the
/// response back unchanged — status, header pairs in order, and body bytes.
pub proof fn lemma_codec_roundtrip(r: SavedResponseView)
    requires
        r.wf(),
    ensures
        decode_columns(encoded_status(r), encoded_headers(r), encoded_body(r)) == Some(r),
{
    lemma_kept_headers_all_ok(r.headers);
}

/// Rebuilds the saved response from the persisted response columns of a
/// record, dropping header pairs that fail to decode. Returns `None` exactly
/// when the columns do not decode: a column is unset, or the stored status
/// code is out of range.
pub fn saved_response_from_columns(
    status: Option<i16>,
    headers: Option<Vec<HeaderPairRecord>>,
    body: Option<Vec<u8>>,
) -> (r: Option<SavedResponse>)
    ensures
        r is Some <==> decode_columns(status, opt_headers_view(&headers), opt_bytes_view(&body))
            is Some,
        r matches Some(resp) ==> Some(resp@) == decode_columns(
            status,
            opt_headers_view(&headers),
            opt_bytes_view(&body),
        ),
{
    let s: i16 = match status {
        Some(s) => s,
        None => {
            return None;
        },
    };
    if !(100 <= s && s <= 999) {
        return None;
    }
    let hs: Vec<HeaderPairRecord> = match headers {
        Some(hs) => hs,
        None => {
            return None;
        },
    };
    let b: Vec<u8> = match body {
        Some(b) => b,
        None => {
            return None;
        },
    };
    let ghost all_pairs = hs.deep_view();
    let mut kept: Vec<HeaderPairRecord> = Vec::new();
    for i in 0..hs.len()
        invariant
            all_pairs == hs.deep_view(),
            kept.deep_view() == kept_headers(all_pairs.take(i as int)),
    {
        let ghost prefix = all_pairs.take(i as int);
        let name_ok = check_header_name(hs[i].name.as_str());
        let value_ok = check_header_value(&hs[i].value);
        proof {
            assert(all_pairs.take(i + 1).drop_last() =~= prefix);
            assert(all_pairs.take(i + 1).last() == hs[i as int]@);
        }
        if name_ok && value_ok {
            let pair = HeaderPairRecord { name: hs[i].name.clone(), value: clone_bytes(&hs[i].value) };
            let ghost kept_before = kept.deep_view();
            kept.push(pair);
            proof {
                assert(kept.deep_view() =~= kept_before.push(hs[i as int]@));
            }
        }
    }
    proof {
        assert(all_pairs.take(hs.len() as int) =~= all_pairs);
    }
    Some(SavedResponse { status_code: s as u16, headers: kept, body: b })
}

} // verus!
