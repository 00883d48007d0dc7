use vstd::map::*;
use vstd::prelude::*;

use crate::idempotency::codec::lemma_codec_roundtrip;
use crate::idempotency::persistance::{
    abort_transition, admit_starts, admit_transition, complete_ok, complete_transition,
    completed_record, pending_record, stored_response, RecordView,
};
use crate::idempotency::response::SavedResponseView;

verus! {

/// The stored contents after any number of further admissions for one pair,
/// each stamped with its own tick.
pub open spec fn admit_many(
    m: Map<(u128, Seq<char>), RecordView>,
    p: (u128, Seq<char>),
    ticks: Seq<u64>,
) -> Map<(u128, Seq<char>), RecordView>
    decreases ticks.len(),
{
    if ticks.len() == 0 {
        m
    } else {
        admit_transition(admit_many(m, p, ticks.drop_last()), p, ticks.last())
    }
}

/// Law: a first admission that claims a pair, followed by the side effect's
/// response being persisted, makes the store replay exactly that response
/// for the pair: persisting succeeds on the claim, no later admission starts
/// processing again, the store is a fixed point of later admissions for the
/// pair, and what they replay is the persisted response, byte for byte.
pub proof fn lemma_first_claim_then_replays(
    m: Map<(u128, Seq<char>), RecordView>,
    p: (u128, Seq<char>),
    r: SavedResponseView,
    tick: u64,
)
    requires
        admit_starts(m, p),
        r.wf(),
    ensures
        ({
            let m1 = admit_transition(m, p, tick);
            let m2 = complete_transition(m1, p, r);
            &&& complete_ok(m1, p)
            &&& !admit_starts(m2, p)
            &&& forall|t: u64| #[trigger] admit_transition(m2, p, t) == m2
            &&& stored_response(m2, p) == Some(r)
        }),
{
    let m1 = admit_transition(m, p, tick);
    let m2 = complete_transition(m1, p, r);
    assert(m1 == m.insert(p, pending_record(tick)));
    assert(complete_ok(m1, p));
    assert(m2 == m1.insert(p, completed_record(tick, r)));
    lemma_codec_roundtrip(r);
}

/// Law: however many further admissions follow a persisted response, each
/// leaves the store unchanged and replays that same response.
pub proof fn lemma_replays_indefinitely(
    m: Map<(u128, Seq<char>), RecordView>,
    p: (u128, Seq<char>),
    r: SavedResponseView,
    ticks: Seq<u64>,
)
    requires
        m.contains_key(p),
        stored_response(m, p) == Some(r),
    ensures
        admit_many(m, p, ticks) == m,
        stored_response(admit_many(m, p, ticks), p) == Some(r),
    decreases ticks.len(),
{
    if ticks.len() > 0 {
        lemma_replays_indefinitely(m, p, r, ticks.drop_last());
    }
}

/// Law: a pair is claimed at most once. An admission always leaves the pair
/// present in the store, and an admission for a present pair never starts
/// processing — so no second admission can claim a pair until the claim is
/// aborted.
pub proof fn lemma_at_most_one_claim(
    m: Map<(u128, Seq<char>), RecordView>,
    p: (u128, Seq<char>),
    tick: u64,
)
    ensures
        !admit_starts(admit_transition(m, p, tick), p),
{
}

/// Law: a failed attempt does not consume the key. Aborting the claim taken
/// by a first admission restores the store exactly, so a later admission for
/// the pair starts processing afresh.
pub proof fn lemma_retry_after_abort(
    m: Map<(u128, Seq<char>), RecordView>,
    p: (u128, Seq<char>),
    tick: u64,
)
    requires
        admit_starts(m, p),
    ensures
        abort_transition(admit_transition(m, p, tick), p) == m,
        admit_starts(abort_transition(admit_transition(m, p, tick), p), p),
{
    let m1 = admit_transition(m, p, tick);
    assert(m1 == m.insert(p, pending_record(tick)));
    assert(complete_ok(m1, p));
    assert_maps_equal!(m1.remove(p), m, q => {});
}

/// Law: distinct (account, key) pairs are independent. Admitting, persisting
/// or aborting under one pair never changes whether another pair is claimed,
/// nor what is replayed for it — two keys under one account, and one key
/// string under two accounts, are processed without cross-contamination.
pub proof fn lemma_pairs_independent(
    m: Map<(u128, Seq<char>), RecordView>,
    p1: (u128, Seq<char>),
    p2: (u128, Seq<char>),
    r: SavedResponseView,
    tick: u64,
)
    requires
        p1 != p2,
    ensures
        admit_starts(admit_transition(m, p1, tick), p2) == admit_starts(m, p2),
        stored_response(admit_transition(m, p1, tick), p2) == stored_response(m, p2),
        admit_starts(complete_transition(m, p1, r), p2) == admit_starts(m, p2),
        stored_response(complete_transition(m, p1, r), p2) == stored_response(m, p2),
        admit_starts(abort_transition(m, p1), p2) == admit_starts(m, p2),
        stored_response(abort_transition(m, p1), p2) == stored_response(m, p2),
{
}

} // verus!
