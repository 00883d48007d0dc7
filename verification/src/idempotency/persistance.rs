use vstd::map::*;
use vstd::prelude::*;

use crate::idempotency::codec::{
    decode_columns, encoded_body, encoded_headers, encoded_status, opt_bytes_view,
    opt_headers_view, saved_response_from_columns,
};
use crate::idempotency::key::{str_eq, IdempotencyKey};
use crate::idempotency::response::{
    clone_bytes, clone_headers, HeaderPairRecord, HeaderPairView, SavedResponse,
    SavedResponseView,
};

verus! {

/// A persisted idempotency row. Identity is the (account, key) pair; the
/// response columns are unset while the row is a pending marker and are all
/// filled in together when the side effect's response is persisted.
pub struct IdempotencyRecord {
    pub user_id: u128,
    pub idempotency_key: String,
    pub created_at: u64,
    pub response_status_code: Option<i16>,
    pub response_headers: Option<Vec<HeaderPairRecord>>,
    pub response_body: Option<Vec<u8>>,
}

/// The mathematical content of a record, keyed externally by its identity.
pub ghost struct RecordView {
    pub created_at: u64,
    pub response_status_code: Option<i16>,
    pub response_headers: Option<Seq<HeaderPairView>>,
    pub response_body: Option<Seq<u8>>,
}

impl View for IdempotencyRecord {
    type V = RecordView;

    open spec fn view(&self) -> RecordView {
        RecordView {
            created_at: self.created_at,
            response_status_code: self.response_status_code,
            response_headers: opt_headers_view(&self.response_headers),
            response_body: opt_bytes_view(&self.response_body),
        }
    }
}

impl RecordView {
    /// A record without a status code has been claimed but not completed;
    /// it must never be treated as a replayable response.
    pub open spec fn pending(self) -> bool {
        self.response_status_code is None
    }

    /// What the record replays, if anything.
    pub open spec fn decode(self) -> Option<SavedResponseView> {
        decode_columns(self.response_status_code, self.response_headers, self.response_body)
    }
}

/// The pending marker written the moment an admission claims a key.
pub open spec fn pending_record(created_at: u64) -> RecordView {
    RecordView {
        created_at,
        response_status_code: None,
        response_headers: None,
        response_body: None,
    }
}

/// The completed record written when a response is persisted.
pub open spec fn completed_record(created_at: u64, r: SavedResponseView) -> RecordView {
    RecordView {
        created_at,
        response_status_code: encoded_status(r),
        response_headers: encoded_headers(r),
        response_body: encoded_body(r),
    }
}

/// The identity of a record: the (account, key) pair.
pub open spec fn rec_key(r: IdempotencyRecord) -> (u128, Seq<char>) {
    (r.user_id, r.idempotency_key@)
}

/// The record stored under a pair, scanning a row sequence.
pub open spec fn lookup_records(s: Seq<IdempotencyRecord>, p: (u128, Seq<char>)) -> Option<
    RecordView,
>
    decreases s.len(),
{
    if s.len() == 0 {
        None
    } else if rec_key(s.last()) == p {
        Some(s.last()@)
    } else {
        lookup_records(s.drop_last(), p)
    }
}

/// No two rows share an identity: the uniqueness guarantee on (account, key).
pub open spec fn unique_keys(s: Seq<IdempotencyRecord>) -> bool {
    forall|i: int, j: int|
        0 <= i < j < s.len() ==> rec_key(#[trigger] s[i]) != rec_key(#[trigger] s[j])
}

/// A pair is absent exactly when no row carries it.
proof fn lemma_lookup_none(s: Seq<IdempotencyRecord>, p: (u128, Seq<char>))
    ensures
        lookup_records(s, p) is None <==> (forall|i: int|
            0 <= i < s.len() ==> rec_key(#[trigger] s[i]) != p),
    decreases s.len(),
{
    if s.len() > 0 {
        let dl = s.drop_last();
        lemma_lookup_none(dl, p);
        assert(forall|i: int| 0 <= i < s.len() - 1 ==> #[trigger] s[i] == dl[i]);
        if rec_key(s.last()) == p {
            assert(rec_key(s[s.len() - 1]) == p);
        } else {
            if lookup_records(s, p) is None {
                assert forall|i: int| 0 <= i < s.len() implies rec_key(#[trigger] s[i]) != p by {
                    if i < s.len() - 1 {
                        assert(s[i] == dl[i]);
                    } else {
                        assert(s[i] == s.last());
                    }
                }
            } else {
                let j = choose|j: int| 0 <= j < dl.len() && rec_key(#[trigger] dl[j]) == p;
                assert(rec_key(s[j]) == p);
            }
        }
    }
}

/// Under unique identities, the lookup of a row's own pair finds that row.
proof fn lemma_lookup_at_index(s: Seq<IdempotencyRecord>, i: int)
    requires
        unique_keys(s),
        0 <= i < s.len(),
    ensures
        lookup_records(s, rec_key(s[i])) == Some(s[i]@),
    decreases s.len(),
{
    if i == s.len() - 1 {
        assert(s.last() == s[i]);
    } else {
        let dl = s.drop_last();
        assert(rec_key(s.last()) != rec_key(s[i]));
        assert(unique_keys(dl)) by {
            assert(forall|a: int| 0 <= a < s.len() - 1 ==> #[trigger] s[a] == dl[a]);
        }
        assert(dl[i] == s[i]);
        lemma_lookup_at_index(dl, i);
    }
}

/// The record store: the persisted table of idempotency records, together
/// with the logical clock that stamps each record's creation. The store is
/// the single shared resource of the engine; every admission, persistence
/// and abort is a transition on its contents.
pub struct IdempotencyStore {
    records: Vec<IdempotencyRecord>,
    clock: u64,
}

/// What an admission does to the stored contents: the first admission for a
/// pair claims it with a pending marker; any later admission leaves the
/// store untouched.
pub open spec fn admit_transition(
    m: Map<(u128, Seq<char>), RecordView>,
    p: (u128, Seq<char>),
    tick: u64,
) -> Map<(u128, Seq<char>), RecordView> {
    if m.contains_key(p) {
        m
    } else {
        m.insert(p, pending_record(tick))
    }
}

/// An admission starts processing exactly when the pair is not yet claimed.
pub open spec fn admit_starts(m: Map<(u128, Seq<char>), RecordView>, p: (u128, Seq<char>)) -> bool {
    !m.contains_key(p)
}

/// The response stored under a pair, if the pair's record decodes to one.
pub open spec fn stored_response(
    m: Map<(u128, Seq<char>), RecordView>,
    p: (u128, Seq<char>),
) -> Option<SavedResponseView> {
    if m.contains_key(p) {
        m[p].decode()
    } else {
        None
    }
}

/// Persisting a response succeeds exactly on a claimed, still-pending pair.
pub open spec fn complete_ok(m: Map<(u128, Seq<char>), RecordView>, p: (u128, Seq<char>)) -> bool {
    m.contains_key(p) && m[p].pending()
}

/// What persisting a response does to the stored contents: the pending
/// marker becomes the completed record; anything else is left untouched.
pub open spec fn complete_transition(
    m: Map<(u128, Seq<char>), RecordView>,
    p: (u128, Seq<char>),
    r: SavedResponseView,
) -> Map<(u128, Seq<char>), RecordView> {
    if complete_ok(m, p) {
        m.insert(p, completed_record(m[p].created_at, r))
    } else {
        m
    }
}

/// What abandoning a claim does to the stored contents: the pending marker
/// vanishes, so the pair can be claimed afresh. A completed record is never
/// discarded.
pub open spec fn abort_transition(
    m: Map<(u128, Seq<char>), RecordView>,
    p: (u128, Seq<char>),
) -> Map<(u128, Seq<char>), RecordView> {
    if complete_ok(m, p) {
        m.remove(p)
    } else {
        m
    }
}

impl IdempotencyStore {
    /// The uniqueness guarantee the storage holds on (account, key).
    pub closed spec fn wf(&self) -> bool {
        unique_keys(self.records@)
    }

    /// The stored contents, as a map from (account, key) to the record.
    pub closed spec fn contents(&self) -> Map<(u128, Seq<char>), RecordView> {
        Map::new(
            |p: (u128, Seq<char>)| lookup_records(self.records@, p) is Some,
            |p: (u128, Seq<char>)| lookup_records(self.records@, p)->Some_0,
        )
    }

    /// The logical clock that will stamp the next claimed record.
    pub closed spec fn clock(&self) -> u64 {
        self.clock
    }

    /// An empty store.
    pub fn new() -> (s: IdempotencyStore)
        ensures
            s.wf(),
            s.contents() == Map::<(u128, Seq<char>), RecordView>::empty(),
    {
        let s = IdempotencyStore { records: Vec::new(), clock: 0 };
        proof {
            assert_maps_equal!(s.contents(), Map::<(u128, Seq<char>), RecordView>::empty(), p => {});
        }
        s
    }

    /// The row holding a pair, if any.
    fn find_index(&self, user_id: u128, key: &str) -> (r: Option<usize>)
        ensures
            match r {
                Some(i) => i < self.records@.len() && rec_key(self.records@[i as int]) == (
                    user_id,
                    key@,
                ) && lookup_records(self.records@, (user_id, key@)) == Some(
                    self.records@[i as int]@,
                ),
                None => lookup_records(self.records@, (user_id, key@)) is None,
            },
    {
        let ghost p = (user_id, key@);
        let mut i = self.records.len();
        proof {
            assert(self.records@.take(i as int) =~= self.records@);
        }
        while i > 0
            invariant
                i <= self.records@.len(),
                lookup_records(self.records@, p) == lookup_records(
                    self.records@.take(i as int),
                    p,
                ),
                p == (user_id, key@),
            decreases i,
        {
            i = i - 1;
            let rec = &self.records[i];
            proof {
                assert(self.records@.take(i + 1).last() == self.records@[i as int]);
                assert(self.records@.take(i + 1).drop_last() =~= self.records@.take(i as int));
            }
            if rec.user_id == user_id && str_eq(rec.idempotency_key.as_str(), key) {
                assert(lookup_records(self.records@.take(i + 1), p) == Some(
                    self.records@[i as int]@,
                ));
                return Some(i);
            }
        }
        proof {
            assert(self.records@.take(0) =~= Seq::<IdempotencyRecord>::empty());
        }
        None
    }
}

impl IdempotencyRecord {
    /// The saved response this record replays: `None` while the record is a
    /// pending marker or when its stored status code does not decode.
    pub fn decode_response(&self) -> (r: Option<SavedResponse>)
        ensures
            r is Some <==> self@.decode() is Some,
            r matches Some(resp) ==> Some(resp@) == self@.decode(),
    {
        let status = self.response_status_code;
        let headers: Option<Vec<HeaderPairRecord>> = match &self.response_headers {
            Some(h) => Some(clone_headers(h)),
            None => None,
        };
        let body: Option<Vec<u8>> = match &self.response_body {
            Some(b) => Some(clone_bytes(b)),
            None => None,
        };
        proof {
            assert(opt_headers_view(&headers) == opt_headers_view(&self.response_headers));
            assert(opt_bytes_view(&body) == opt_bytes_view(&self.response_body));
        }
        saved_response_from_columns(status, headers, body)
    }
}

/// A claim on one (account, key) pair: the open unit of work handed to the
/// caller who must now run the side effect. It must be consumed exactly
/// once — by `save_response` when the side effect succeeded, or by
/// `abort_processing` when it failed — and the pair stays claimed until
/// then.
pub struct ProcessingGuard {
    user_id: u128,
    idempotency_key: String,
}

impl View for ProcessingGuard {
    type V = (u128, Seq<char>);

    closed spec fn view(&self) -> (u128, Seq<char>) {
        (self.user_id, self.idempotency_key@)
    }
}

/// What the decision gate tells the caller: run the side effect under the
/// claim, or forward the response saved by the first attempt.
pub enum NextAction {
    StartProcessing(ProcessingGuard),
    ReturnSavedResponse(SavedResponse),
}

/// Error surfaced when persisting a response finds no pending claim to
/// complete: the claim was already consumed, or never taken from this store.
#[derive(Debug, Clone, Copy, PartialEq, Eq, Structural)]
pub struct StorageFailure;

/// The decision gate. The first call for a pair claims it — the marker row
/// is inserted and the caller gets a guard obliging it to run the side
/// effect. Any later call leaves the store unchanged and replays the saved
/// response; `None` is returned when the pair is claimed but no response has
/// been persisted (a concurrent attempt still in flight, or a record that
/// does not decode).
pub fn try_processing(
    store: &mut IdempotencyStore,
    idempotency_key: &IdempotencyKey,
    user_id: u128,
) -> (r: Option<NextAction>)
    requires
        old(store).wf(),
    ensures
        final(store).wf(),
        final(store).contents() == admit_transition(
            old(store).contents(),
            (user_id, idempotency_key@),
            old(store).clock(),
        ),
        admit_starts(old(store).contents(), (user_id, idempotency_key@)) ==> (r matches Some(
            NextAction::StartProcessing(g),
        ) && g@ == (user_id, idempotency_key@)),
        !admit_starts(old(store).contents(), (user_id, idempotency_key@)) ==> (match stored_response(
            old(store).contents(),
            (user_id, idempotency_key@),
        ) {
            Some(v) => r matches Some(NextAction::ReturnSavedResponse(resp)) && resp@ == v,
            None => r is None,
        }),
{
    let ghost p = (user_id, idempotency_key@);
    let ghost old_records = store.records@;
    let ghost old_contents = store.contents();
    let ghost old_clock = store.clock;
    match store.find_index(user_id, idempotency_key.as_str()) {
        None => {
            let rec = IdempotencyRecord {
                user_id,
                idempotency_key: idempotency_key.as_str().to_owned(),
                created_at: store.clock,
                response_status_code: None,
                response_headers: None,
                response_body: None,
            };
            let ghost grec = rec;
            store.records.push(rec);
            store.clock = if store.clock < u64::MAX {
                store.clock + 1
            } else {
                store.clock
            };
            proof {
                let new_records = store.records@;
                assert(new_records.drop_last() =~= old_records);
                assert(new_records.last() == grec);
                assert(grec@ == pending_record(old_clock));
                lemma_lookup_none(old_records, p);
                assert(unique_keys(new_records)) by {
                    assert(forall|a: int|
                        0 <= a < old_records.len() ==> #[trigger] new_records[a] == old_records[a]);
                    assert(rec_key(new_records[new_records.len() - 1]) == p);
                }
                assert_maps_equal!(store.contents(), old_contents.insert(p, pending_record(old_clock)), q => {
                    assert(new_records.last() == grec);
                    assert(new_records.drop_last() =~= old_records);
                });
            }
            Some(
                NextAction::StartProcessing(
                    ProcessingGuard {
                        user_id,
                        idempotency_key: idempotency_key.as_str().to_owned(),
                    },
                ),
            )
        },
        Some(i) => {
            proof {
                assert(old_contents.contains_key(p));
                assert(old_contents[p] == old_records[i as int]@);
            }
            match store.records[i].decode_response() {
                Some(resp) => Some(NextAction::ReturnSavedResponse(resp)),
                None => None,
            }
        },
    }
}

/// Reads back the response saved for a pair: `None` when no record exists,
/// or when the record is still a pending marker, or when its columns do not
/// decode. Header pairs that fail to decode are dropped, not fatal.
pub fn get_saved_response(
    store: &IdempotencyStore,
    idempotency_key: &IdempotencyKey,
    user_id: u128,
) -> (r: Option<SavedResponse>)
    ensures
        r is Some <==> stored_response(store.contents(), (user_id, idempotency_key@)) is Some,
        r matches Some(resp) ==> Some(resp@) == stored_response(
            store.contents(),
            (user_id, idempotency_key@),
        ),
{
    match store.find_index(user_id, idempotency_key.as_str()) {
        Some(i) => {
            proof {
                assert(store.contents().contains_key((user_id, idempotency_key@)));
                assert(store.contents()[(user_id, idempotency_key@)] == store.records@[
                    i as int
                ]@);
            }
            store.records[i].decode_response()
        },
        None => None,
    }
}

/// Persists the side effect's response under the claimed pair and consumes
/// the claim: the pending marker becomes the completed record, and the very
/// response handed in is given back for the caller to send. Fails — with the
/// store left untouched — when the guard's pair holds no pending marker in
/// this store.
pub fn save_response(
    store: &mut IdempotencyStore,
    guard: ProcessingGuard,
    response: SavedResponse,
) -> (r: Result<SavedResponse, StorageFailure>)
    requires
        old(store).wf(),
        response@.wf(),
    ensures
        final(store).wf(),
        final(store).contents() == complete_transition(
            old(store).contents(),
            guard@,
            response@,
        ),
        r is Ok <==> complete_ok(old(store).contents(), guard@),
        r matches Ok(resp) ==> resp@ == response@,
{
    let ghost p = guard@;
    let ghost old_records = store.records@;
    let ghost old_contents = store.contents();
    match store.find_index(guard.user_id, guard.idempotency_key.as_str()) {
        Some(i) => {
            proof {
                assert(old_contents.contains_key(p));
                assert(old_contents[p] == old_records[i as int]@);
            }
            if store.records[i].response_status_code.is_none() {
                let created_at = store.records[i].created_at;
                let status: i16 = response.status_code as i16;
                let headers = clone_headers(&response.headers);
                let body = clone_bytes(&response.body);
                let new_rec = IdempotencyRecord {
                    user_id: guard.user_id,
                    idempotency_key: guard.idempotency_key,
                    created_at,
                    response_status_code: Some(status),
                    response_headers: Some(headers),
                    response_body: Some(body),
                };
                let ghost grec = new_rec;
                store.records[i] = new_rec;
                proof {
                    let new_records = store.records@;
                    assert(new_records == old_records.update(i as int, grec));
                    assert(rec_key(grec) == p);
                    assert(grec@ == completed_record(created_at, response@));
                    assert(forall|a: int|
                        0 <= a < old_records.len() && a != i ==> #[trigger] new_records[a]
                            == old_records[a]);
                    assert(forall|a: int|
                        0 <= a < old_records.len() ==> rec_key(#[trigger] new_records[a])
                            == rec_key(old_records[a]));
                    assert(unique_keys(new_records));
                    assert_maps_equal!(store.contents(), old_contents.insert(p, completed_record(created_at, response@)), q => {
                        if q == p {
                            lemma_lookup_at_index(new_records, i as int);
                        } else {
                            lemma_lookup_none(new_records, q);
                            lemma_lookup_none(old_records, q);
                            if lookup_records(old_records, q) is Some {
                                let j = choose|j: int|
                                    0 <= j < old_records.len() && rec_key(
                                        #[trigger] old_records[j],
                                    ) == q;
                                lemma_lookup_at_index(old_records, j);
                                lemma_lookup_at_index(new_records, j);
                            }
                            if lookup_records(new_records, q) is Some {
                                let j = choose|j: int|
                                    0 <= j < new_records.len() && rec_key(
                                        #[trigger] new_records[j],
                                    ) == q;
                                lemma_lookup_at_index(old_records, j);
                                lemma_lookup_at_index(new_records, j);
                            }
                        }
                    });
                }
                Ok(response)
            } else {
                Err(StorageFailure)
            }
        },
        None => Err(StorageFailure),
    }
}

/// Abandons a claim: the pending marker for the guard's pair is discarded,
/// so a later attempt can claim the pair afresh. A completed record is never
/// discarded, and an unclaimed pair is left as it is.
pub fn abort_processing(store: &mut IdempotencyStore, guard: ProcessingGuard)
    requires
        old(store).wf(),
    ensures
        final(store).wf(),
        final(store).contents() == abort_transition(old(store).contents(), guard@),
{
    let ghost p = guard@;
    let ghost old_records = store.records@;
    let ghost old_contents = store.contents();
    match store.find_index(guard.user_id, guard.idempotency_key.as_str()) {
        Some(i) => {
            proof {
                assert(old_contents.contains_key(p));
                assert(old_contents[p] == old_records[i as int]@);
            }
            if store.records[i].response_status_code.is_none() {
                store.records.remove(i);
                proof {
                    let new_records = store.records@;
                    assert(new_records == old_records.remove(i as int));
                    assert(forall|a: int|
                        0 <= a < i ==> #[trigger] new_records[a] == old_records[a]);
                    assert(forall|a: int|
                        i <= a < new_records.len() ==> #[trigger] new_records[a] == old_records[
                            a + 1
                        ]);
                    assert(unique_keys(new_records)) by {
                        assert forall|a: int, b: int|
                            0 <= a < b < new_records.len() implies rec_key(
                            #[trigger] new_records[a],
                        ) != rec_key(#[trigger] new_records[b]) by {
                            let a0 = if a < i { a } else { a + 1 };
                            let b0 = if b < i { b } else { b + 1 };
                            assert(new_records[a] == old_records[a0]);
                            assert(new_records[b] == old_records[b0]);
                        }
                    }
                    assert_maps_equal!(store.contents(), abort_transition(old_contents, p), q => {
                        if q == p {
                            lemma_lookup_none(new_records, q);
                            assert forall|a: int| 0 <= a < new_records.len() implies rec_key(
                                #[trigger] new_records[a],
                            ) != p by {
                                let a0 = if a < i { a } else { a + 1 };
                                assert(new_records[a] == old_records[a0]);
                                assert(rec_key(old_records[i as int]) == p);
                            }
                        } else {
                            lemma_lookup_none(new_records, q);
                            lemma_lookup_none(old_records, q);
                            if lookup_records(old_records, q) is Some {
                                let j = choose|j: int|
                                    0 <= j < old_records.len() && rec_key(
                                        #[trigger] old_records[j],
                                    ) == q;
                                lemma_lookup_at_index(old_records, j);
                                let j2 = if j < i { j } else { j - 1 };
                                assert(new_records[j2] == old_records[j]);
                                lemma_lookup_at_index(new_records, j2);
                            }
                            if lookup_records(new_records, q) is Some {
                                let j = choose|j: int|
                                    0 <= j < new_records.len() && rec_key(
                                        #[trigger] new_records[j],
                                    ) == q;
                                lemma_lookup_at_index(new_records, j);
                                let j0 = if j < i { j } else { j + 1 };
                                assert(new_records[j] == old_records[j0]);
                                lemma_lookup_at_index(old_records, j0);
                            }
                        }
                    });
                }
            }
        },
        None => {},
    }
}

} // verus!
