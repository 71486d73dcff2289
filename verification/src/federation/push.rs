//! What the push routes share: a body that lists byte strings under one key,
//! a body that lists hashes, and a reply with one result for each object.

use vstd::prelude::*;

use crate::bytes::key_from_slice;
use crate::cbor;
use crate::cbor::{ArrayBuilder, Cbor, CborView, DictBuilder};
use crate::federation::push_rate_limit::{push_too_many_requests, PushRateLimiter};
use crate::federation::reply::Throttled;
use crate::federation::window;
use crate::text::same_text;

verus! {

/// The byte strings that a list of vectors holds.
pub open spec fn byte_strings(list: Seq<Vec<u8>>) -> Seq<Seq<u8>> {
    Seq::new(list.len(), |i: int| list[i]@)
}

/// The byte strings that a list of keys holds.
pub open spec fn key_strings(list: Seq<[u8; 32]>) -> Seq<Seq<u8>> {
    Seq::new(list.len(), |i: int| list[i]@)
}

/// An array of byte strings.
pub open spec fn bytes_array(list: Seq<Seq<u8>>) -> CborView {
    CborView::Array(Seq::new(list.len(), |i: int| CborView::Bytes(list[i])))
}

/// The body `{ key: [bytes, ...] }`.
pub open spec fn list_body(key: Seq<char>, list: Seq<Seq<u8>>) -> CborView {
    CborView::Dict(seq![(CborView::Text(key), bytes_array(list))])
}

/// The byte strings of a body that is a map with the one entry `key`, an
/// array of byte strings.
pub open spec fn list_of(item: CborView, key: Seq<char>) -> Option<Seq<Seq<u8>>> {
    match item {
        CborView::Dict(entries) => if entries.len() == 1 && entries[0].0 == CborView::Text(key) {
            match entries[0].1 {
                CborView::Array(items) => if forall|i: int|
                    0 <= i < items.len() ==> (#[trigger] items[i]) is Bytes {
                    Some(Seq::new(items.len(), |i: int| items[i]->Bytes_0))
                } else {
                    None
                },
                _ => None,
            }
        } else {
            None
        },
        _ => None,
    }
}

/// The byte strings that a body read from `bytes` lists under `key`.
pub open spec fn list_in(bytes: Seq<u8>, key: Seq<char>) -> Option<Seq<Seq<u8>>> {
    match cbor::cbor_decoding(bytes) {
        Some(item) => list_of(item, key),
        None => None,
    }
}

/// The hashes that a body read from `bytes` lists under `key`: byte strings
/// of 32 bytes each.
pub open spec fn hashes_in(bytes: Seq<u8>, key: Seq<char>) -> Option<Seq<Seq<u8>>> {
    match list_in(bytes, key) {
        Some(list) => if forall|i: int| 0 <= i < list.len() ==> (#[trigger] list[i]).len() == 32 {
            Some(list)
        } else {
            None
        },
        None => None,
    }
}

/// Reading a list body gives back the list that it was made of.
pub proof fn law_list_body_reads_back(key: Seq<char>, list: Seq<Seq<u8>>)
    ensures
        list_of(list_body(key, list), key) == Some(list),
{
    let items = list_body(key, list)->Dict_0[0].1->Array_0;
    assert(forall|i: int| 0 <= i < items.len() ==> (#[trigger] items[i]) is Bytes);
    assert(list_of(list_body(key, list), key)->Some_0 =~= list);
}

/// A list body is shallow enough to be written and read.
pub proof fn lemma_list_body_writable(key: Seq<char>, list: Seq<Seq<u8>>)
    ensures
        cbor::writable(list_body(key, list), cbor::NESTING_LIMIT as nat),
{
    reveal_with_fuel(cbor::writable, 3);
}

fn bytes_items(items: &Vec<Cbor>) -> (list: Option<Vec<Vec<u8>>>)
    ensures
        list is Some <==> forall|i: int|
            0 <= i < items@.len() ==> (#[trigger] items@[i])@ is Bytes,
        list matches Some(l) ==> l@.len() == items@.len() && forall|i: int|
            0 <= i < items@.len() ==> (#[trigger] l@[i])@ == items@[i]@->Bytes_0,
{
    let mut out: Vec<Vec<u8>> = Vec::new();
    let mut i: usize = 0;
    while i < items.len()
        invariant
            i <= items.len(),
            out@.len() == i,
            forall|j: int|
                0 <= j < i ==> (#[trigger] items@[j])@ is Bytes && out@[j]@
                    == items@[j]@->Bytes_0,
        decreases items.len() - i,
    {
        match &items[i] {
            Cbor::Bytes(b) => {
                let copy: Vec<u8> = b.clone();
                assert(copy@ =~= b@);
                out.push(copy);
            },
            _ => {
                assert(!(items@[i as int]@ is Bytes));
                return None;
            },
        }
        i += 1;
    }
    Some(out)
}

/// The byte strings of a body that is a map with the one entry `key`, an
/// array of byte strings.
pub fn list_from_item(item: &Cbor, key: &str) -> (list: Option<Vec<Vec<u8>>>)
    ensures
        match list {
            Some(l) => list_of(item@, key@) == Some(byte_strings(l@)),
            None => list_of(item@, key@) is None,
        },
{
    match item {
        Cbor::Dict(entries) => {
            proof {
                cbor::lemma_dict_view(*item);
            }
            if entries.len() != 1 {
                return None;
            }
            match (&entries[0].0, &entries[0].1) {
                (Cbor::Text(name), Cbor::Array(items)) => {
                    if !same_text(name.as_str(), key) {
                        return None;
                    }
                    proof {
                        cbor::lemma_array_view(entries@[0].1);
                    }
                    let ghost inner = item@->Dict_0[0].1->Array_0;
                    assert(inner == cbor::items_view(items@));
                    assert(forall|i: int|
                        0 <= i < items@.len() ==> inner[i] == (#[trigger] items@[i])@);
                    match bytes_items(items) {
                        Some(list) => {
                            assert(forall|i: int|
                                0 <= i < inner.len() ==> (#[trigger] inner[i]) is Bytes) by {
                                assert(forall|i: int|
                                    0 <= i < items@.len() ==> (#[trigger] items@[i])@ is Bytes);
                            }
                            assert(list_of(item@, key@)->Some_0 =~= byte_strings(list@));
                            Some(list)
                        },
                        None => {
                            assert(!(forall|i: int|
                                0 <= i < inner.len() ==> (#[trigger] inner[i]) is Bytes)) by {
                                let i = choose|i: int|
                                    0 <= i < items@.len() && !((#[trigger] items@[i])@ is Bytes);
                                assert(!(inner[i] is Bytes));
                            }
                            None
                        },
                    }
                },
                _ => None,
            }
        },
        _ => None,
    }
}

/// Reads a body that lists byte strings under `key`.
pub fn decode_list(body: &[u8], key: &str) -> (list: Option<Vec<Vec<u8>>>)
    ensures
        match list {
            Some(l) => list_in(body@, key@) == Some(byte_strings(l@)),
            None => list_in(body@, key@) is None,
        },
{
    match cbor::decode(body) {
        Some(item) => list_from_item(&item, key),
        None => None,
    }
}

/// Reads a body that lists 32-byte hashes under `key`.
pub fn decode_hashes(body: &[u8], key: &str) -> (hashes: Option<Vec<[u8; 32]>>)
    ensures
        match hashes {
            Some(h) => hashes_in(body@, key@) == Some(key_strings(h@)),
            None => hashes_in(body@, key@) is None,
        },
{
    let list: Vec<Vec<u8>> = match decode_list(body, key) {
        Some(list) => list,
        None => return None,
    };
    let ghost strings = byte_strings(list@);
    let mut out: Vec<[u8; 32]> = Vec::new();
    let mut i: usize = 0;
    while i < list.len()
        invariant
            i <= list.len(),
            strings == byte_strings(list@),
            out@.len() == i,
            forall|j: int|
                0 <= j < i ==> (#[trigger] strings[j]).len() == 32 && out@[j]@ == strings[j],
            list_in(body@, key@) == Some(strings),
        decreases list.len() - i,
    {
        match key_from_slice(list[i].as_slice()) {
            Some(k) => {
                assert(strings[i as int] == k@);
                out.push(k);
            },
            None => {
                assert(strings[i as int].len() != 32);
                return None;
            },
        }
        i += 1;
    }
    assert(key_strings(out@) =~= strings);
    Some(out)
}

/// Writes the body `{ key: [bytes, ...] }`; reading it gives the list back.
pub fn encode_list(key: &str, list: &Vec<Vec<u8>>) -> (body: Vec<u8>)
    ensures
        body@ == cbor::cbor_encoding(list_body(key@, byte_strings(list@))),
        list_in(body@, key@) == Some(byte_strings(list@)),
{
    let mut items = ArrayBuilder::new();
    let mut i: usize = 0;
    while i < list.len()
        invariant
            i <= list.len(),
            items@ == Seq::new(i as nat, |j: int| CborView::Bytes(list@[j]@)),
        decreases list.len() - i,
    {
        items.put(cbor::bytes(list[i].as_slice()));
        assert(items@ =~= Seq::new((i + 1) as nat, |j: int| CborView::Bytes(list@[j]@)));
        i += 1;
    }
    let array: Cbor = items.finish();
    assert(array@ == bytes_array(byte_strings(list@))) by {
        assert(array@->Array_0 =~= bytes_array(byte_strings(list@))->Array_0);
    }
    let mut dict = DictBuilder::new();
    dict.put(key, array);
    let item: Cbor = dict.finish();
    proof {
        assert(item@->Dict_0 =~= list_body(key@, byte_strings(list@))->Dict_0);
        lemma_list_body_writable(key@, byte_strings(list@));
        law_list_body_reads_back(key@, byte_strings(list@));
    }
    cbor::encode(&item)
}

/// A per-object outcome with the tags under which it is reported.
pub trait Outcome {
    /// The `status` of the outcome.
    spec fn status_text(&self) -> Seq<char>;

    /// The `reason` of the outcome, where it has one.
    spec fn reason_text(&self) -> Option<Seq<char>>;

    /// The `status` of the outcome.
    fn status_tag(&self) -> (tag: &'static str)
        ensures
            tag@ == self.status_text(),
    ;

    /// The `reason` of the outcome, where it has one.
    fn reason_tag(&self) -> (tag: Option<&'static str>)
        ensures
            tag is Some <==> self.reason_text() is Some,
            tag matches Some(t) ==> self.reason_text() == Some(t@),
    ;
}

/// One object's result: its hash and its outcome.
#[derive(Debug, PartialEq, Eq)]
pub struct PushResult<S> {
    pub canonical_hash: [u8; 32],
    pub status: S,
}

/// One result: `{ canonical_hash, status, reason? }`.
pub open spec fn result_item(
    hash: Seq<u8>,
    status: Seq<char>,
    reason: Option<Seq<char>>,
) -> CborView {
    let head = seq![
        (CborView::Text("canonical_hash"@), CborView::Bytes(hash)),
        (CborView::Text("status"@), CborView::Text(status)),
    ];
    CborView::Dict(
        match reason {
            Some(r) => head.push((CborView::Text("reason"@), CborView::Text(r))),
            None => head,
        },
    )
}

/// The reply `{ "results": [result, ...] }`, one result for each object in
/// the order of the request.
pub open spec fn results_body<S: Outcome>(results: Seq<PushResult<S>>) -> CborView {
    CborView::Dict(
        seq![
            (
                CborView::Text("results"@),
                CborView::Array(
                    Seq::new(
                        results.len(),
                        |i: int|
                            result_item(
                                results[i].canonical_hash@,
                                results[i].status.status_text(),
                                results[i].status.reason_text(),
                            ),
                    ),
                ),
            ),
        ],
    )
}

proof fn lemma_results_body_writable<S: Outcome>(results: Seq<PushResult<S>>)
    ensures
        cbor::writable(results_body(results), cbor::NESTING_LIMIT as nat),
{
    reveal_with_fuel(cbor::writable, 5);
}

fn encode_result<S: Outcome>(result: &PushResult<S>) -> (item: Cbor)
    ensures
        item@ == result_item(
            result.canonical_hash@,
            result.status.status_text(),
            result.status.reason_text(),
        ),
{
    let mut dict = DictBuilder::new();
    dict.put("canonical_hash", cbor::bytes(result.canonical_hash.as_slice()));
    dict.put("status", cbor::text(result.status.status_tag()));
    if let Some(reason) = result.status.reason_tag() {
        dict.put("reason", cbor::text(reason));
    }
    let item: Cbor = dict.finish();
    assert(item@->Dict_0 =~= result_item(
        result.canonical_hash@,
        result.status.status_text(),
        result.status.reason_text(),
    )->Dict_0);
    item
}

/// Writes the reply that reports `results`.
pub fn encode_results<S: Outcome>(results: &[PushResult<S>]) -> (body: Vec<u8>)
    ensures
        body@ == cbor::cbor_encoding(results_body(results@)),
        cbor::cbor_decoding(body@) == Some(results_body(results@)),
{
    let mut items = ArrayBuilder::new();
    let mut i: usize = 0;
    while i < results.len()
        invariant
            i <= results.len(),
            items@.len() == i,
            forall|j: int|
                0 <= j < i ==> #[trigger] items@[j] == result_item(
                    results@[j].canonical_hash@,
                    results@[j].status.status_text(),
                    results@[j].status.reason_text(),
                ),
        decreases results.len() - i,
    {
        items.put(encode_result(&results[i]));
        i += 1;
    }
    let array: Cbor = items.finish();
    let mut dict = DictBuilder::new();
    dict.put("results", array);
    let item: Cbor = dict.finish();
    proof {
        let want = results_body(results@);
        assert(array@->Array_0 =~= want->Dict_0[0].1->Array_0);
        assert(item@->Dict_0 =~= want->Dict_0);
        lemma_results_body_writable(results@);
    }
    cbor::encode(&item)
}

/// The objects of a push, each in its wire form.
#[derive(Debug)]
pub struct ObjectsBody {
    pub objects: Vec<Vec<u8>>,
}

impl ObjectsBody {
    /// Reads the body `{ "objects": [bytes, ...] }`.
    pub fn decode(bytes: &[u8]) -> (body: Option<ObjectsBody>)
        ensures
            match body {
                Some(b) => list_in(bytes@, "objects"@) == Some(byte_strings(b.objects@)),
                None => list_in(bytes@, "objects"@) is None,
            },
    {
        match decode_list(bytes, "objects") {
            Some(objects) => Some(ObjectsBody { objects }),
            None => None,
        }
    }
}

/// The hashes that a backfill asks for.
#[derive(Debug)]
pub struct HashesBody {
    pub hashes: Vec<[u8; 32]>,
}

impl HashesBody {
    /// Reads the body `{ "hashes": [bytes of length 32, ...] }`.
    pub fn decode(bytes: &[u8]) -> (body: Option<HashesBody>)
        ensures
            match body {
                Some(b) => hashes_in(bytes@, "hashes"@) == Some(key_strings(b.hashes@)),
                None => hashes_in(bytes@, "hashes"@) is None,
            },
    {
        match decode_hashes(bytes, "hashes") {
            Some(hashes) => Some(HashesBody { hashes }),
            None => None,
        }
    }
}

/// Why a push of objects is refused as a whole.
#[derive(Clone, Copy, Debug, PartialEq, Eq)]
pub enum PushRefusal {
    /// The sender is over its budget.
    RateLimited(Throttled),
    Malformed,
    EmptyBatch,
    BatchTooLarge,
}

impl PushRefusal {
    /// The error of a bad request, none for a throttled one.
    pub open spec fn error_text(&self) -> Option<Seq<char>> {
        match self {
            PushRefusal::RateLimited(_) => None,
            PushRefusal::Malformed => Some("malformed"@),
            PushRefusal::EmptyBatch => Some("empty_batch"@),
            PushRefusal::BatchTooLarge => Some("batch_too_large"@),
        }
    }

    /// The error of a bad request, none for a throttled one.
    pub fn error(&self) -> (error: Option<&'static str>)
        ensures
            error is Some <==> self.error_text() is Some,
            error matches Some(e) ==> self.error_text() == Some(e@),
    {
        match self {
            PushRefusal::RateLimited(_) => None,
            PushRefusal::Malformed => Some("malformed"),
            PushRefusal::EmptyBatch => Some("empty_batch"),
            PushRefusal::BatchTooLarge => Some("batch_too_large"),
        }
    }
}

/// Charges the sender's budget with one push, then takes its objects out of
/// the body, between one and `max_batch` of them.
pub fn open_objects_push(
    limiter: &mut PushRateLimiter,
    sender: [u8; 32],
    now_secs: u64,
    body: &[u8],
    max_batch: usize,
) -> (objects: Result<Vec<Vec<u8>>, PushRefusal>)
    requires
        old(limiter).wf(),
    ensures
        final(limiter).wf(),
        final(limiter).budget() == old(limiter).budget(),
        final(limiter)@ == window::after_request(
            old(limiter)@,
            sender@,
            now_secs,
            PushRateLimiter::WINDOW_SECS,
            old(limiter).budget(),
        ),
        if !window::admits(
            old(limiter)@,
            sender@,
            now_secs,
            PushRateLimiter::WINDOW_SECS,
            old(limiter).budget(),
        ) {
            objects matches Err(PushRefusal::RateLimited(t)) && t.status == 429
                && t.retry_after@ == "60"@
        } else {
            match list_in(body@, "objects"@) {
                None => objects == Err::<Vec<Vec<u8>>, _>(PushRefusal::Malformed),
                Some(list) => if list.len() == 0 {
                    objects == Err::<Vec<Vec<u8>>, _>(PushRefusal::EmptyBatch)
                } else if list.len() > max_batch {
                    objects == Err::<Vec<Vec<u8>>, _>(PushRefusal::BatchTooLarge)
                } else {
                    objects matches Ok(o) && byte_strings(o@) == list
                },
            }
        },
{
    if !limiter.try_admit_at(sender, now_secs) {
        return Err(PushRefusal::RateLimited(push_too_many_requests()));
    }
    let objects: Vec<Vec<u8>> = match ObjectsBody::decode(body) {
        Some(b) => b.objects,
        None => return Err(PushRefusal::Malformed),
    };
    assert(byte_strings(objects@).len() == objects@.len());
    if objects.len() == 0 {
        return Err(PushRefusal::EmptyBatch);
    }
    if objects.len() > max_batch {
        return Err(PushRefusal::BatchTooLarge);
    }
    Ok(objects)
}

/// Why a backfill by hash is refused.
#[derive(Clone, Copy, Debug, PartialEq, Eq)]
pub enum ByHashRefusal {
    Malformed,
    EmptyBatch,
    TooManyHashes,
}

impl ByHashRefusal {
    /// The wire form of the error.
    pub open spec fn text(&self) -> Seq<char> {
        match self {
            ByHashRefusal::Malformed => "malformed"@,
            ByHashRefusal::EmptyBatch => "empty_batch"@,
            ByHashRefusal::TooManyHashes => "too_many_hashes"@,
        }
    }

    /// The wire form of the error.
    pub fn as_str(&self) -> (tag: &'static str)
        ensures
            tag@ == self.text(),
    {
        match self {
            ByHashRefusal::Malformed => "malformed",
            ByHashRefusal::EmptyBatch => "empty_batch",
            ByHashRefusal::TooManyHashes => "too_many_hashes",
        }
    }
}

/// The hashes that a backfill asks for, between one and `max_hashes`.
pub fn open_by_hash(body: &[u8], max_hashes: usize) -> (hashes: Result<
    Vec<[u8; 32]>,
    ByHashRefusal,
>)
    ensures
        match hashes_in(body@, "hashes"@) {
            None => hashes == Err::<Vec<[u8; 32]>, _>(ByHashRefusal::Malformed),
            Some(list) => if list.len() == 0 {
                hashes == Err::<Vec<[u8; 32]>, _>(ByHashRefusal::EmptyBatch)
            } else if list.len() > max_hashes {
                hashes == Err::<Vec<[u8; 32]>, _>(ByHashRefusal::TooManyHashes)
            } else {
                hashes matches Ok(h) && key_strings(h@) == list
            },
        },
{
    let hashes: Vec<[u8; 32]> = match HashesBody::decode(body) {
        Some(b) => b.hashes,
        None => return Err(ByHashRefusal::Malformed),
    };
    assert(key_strings(hashes@).len() == hashes@.len());
    if hashes.len() == 0 {
        return Err(ByHashRefusal::EmptyBatch);
    }
    if hashes.len() > max_hashes {
        return Err(ByHashRefusal::TooManyHashes);
    }
    Ok(hashes)
}

/// The wire forms of the objects that were found, in the order of the request.
pub open spec fn found_objects(found: Seq<Option<Vec<u8>>>) -> Seq<Seq<u8>>
    decreases found.len(),
{
    if found.len() == 0 {
        Seq::empty()
    } else {
        let before = found_objects(found.drop_last());
        match found.last() {
            Some(wire) => before.push(wire@),
            None => before,
        }
    }
}

/// The hashes whose objects were not found, in the order of the request.
pub open spec fn missing_hashes(hashes: Seq<[u8; 32]>, found: Seq<Option<Vec<u8>>>) -> Seq<
    Seq<u8>,
>
    decreases found.len(),
{
    if found.len() == 0 || hashes.len() != found.len() {
        Seq::empty()
    } else {
        let before = missing_hashes(hashes.drop_last(), found.drop_last());
        match found.last() {
            Some(_) => before,
            None => before.push(hashes.last()@),
        }
    }
}

/// The reply `{ "objects": [...], "missing": [...] }`.
pub open spec fn by_hash_body(objects: Seq<Seq<u8>>, missing: Seq<Seq<u8>>) -> CborView {
    CborView::Dict(
        seq![
            (CborView::Text("objects"@), bytes_array(objects)),
            (CborView::Text("missing"@), bytes_array(missing)),
        ],
    )
}

/// Every hash that was asked for is answered exactly once: with its object or
/// as missing.
pub proof fn law_by_hash_answers_every_hash(
    hashes: Seq<[u8; 32]>,
    found: Seq<Option<Vec<u8>>>,
)
    requires
        hashes.len() == found.len(),
    ensures
        found_objects(found).len() + missing_hashes(hashes, found).len() == hashes.len(),
    decreases found.len(),
{
    if found.len() > 0 {
        law_by_hash_answers_every_hash(hashes.drop_last(), found.drop_last());
    }
}

proof fn lemma_by_hash_body_writable(objects: Seq<Seq<u8>>, missing: Seq<Seq<u8>>)
    ensures
        cbor::writable(by_hash_body(objects, missing), cbor::NESTING_LIMIT as nat),
{
    reveal_with_fuel(cbor::writable, 3);
}

/// Writes the reply to a backfill: `found` holds, for each hash, the wire
/// form of the object if it is stored.
pub fn encode_by_hash(hashes: &Vec<[u8; 32]>, found: &Vec<Option<Vec<u8>>>) -> (body: Vec<u8>)
    requires
        hashes@.len() == found@.len(),
    ensures
        body@ == cbor::cbor_encoding(
            by_hash_body(found_objects(found@), missing_hashes(hashes@, found@)),
        ),
        cbor::cbor_decoding(body@) == Some(
            by_hash_body(found_objects(found@), missing_hashes(hashes@, found@)),
        ),
{
    let mut objects = ArrayBuilder::new();
    let mut missing = ArrayBuilder::new();
    assert(objects@ =~= bytes_array(found_objects(found@.take(0)))->Array_0);
    assert(missing@ =~= bytes_array(missing_hashes(hashes@.take(0), found@.take(0)))->Array_0);
    let mut i: usize = 0;
    while i < found.len()
        invariant
            i <= found.len(),
            hashes@.len() == found@.len(),
            CborView::Array(objects@) == bytes_array(found_objects(found@.take(i as int))),
            CborView::Array(missing@) == bytes_array(
                missing_hashes(hashes@.take(i as int), found@.take(i as int)),
            ),
        decreases found.len() - i,
    {
        let ghost before = found@.take(i as int);
        let ghost asked = hashes@.take(i as int);
        assert(found@.take(i + 1).drop_last() =~= before);
        assert(hashes@.take(i + 1).drop_last() =~= asked);
        assert(found@.take(i + 1).last() == found@[i as int]);
        assert(hashes@.take(i + 1).last() == hashes@[i as int]);
        match &found[i] {
            Some(wire) => {
                objects.put(cbor::bytes(wire.as_slice()));
                assert(objects@ =~= bytes_array(
                    found_objects(before).push(wire@),
                )->Array_0);
            },
            None => {
                missing.put(cbor::bytes(hashes[i].as_slice()));
                assert(missing@ =~= bytes_array(
                    missing_hashes(asked, before).push(hashes@[i as int]@),
                )->Array_0);
            },
        }
        i += 1;
    }
    assert(found@.take(i as int) =~= found@);
    assert(hashes@.take(i as int) =~= hashes@);
    let objects_item: Cbor = objects.finish();
    let missing_item: Cbor = missing.finish();
    let mut dict = DictBuilder::new();
    dict.put("objects", objects_item);
    dict.put("missing", missing_item);
    let item: Cbor = dict.finish();
    proof {
        let want = by_hash_body(found_objects(found@), missing_hashes(hashes@, found@));
        assert(item@->Dict_0 =~= want->Dict_0);
        lemma_by_hash_body_writable(found_objects(found@), missing_hashes(hashes@, found@));
    }
    cbor::encode(&item)
}

/// A body of hashes is taken exactly where it lists one to the most that may
/// be asked for, each of 32 bytes: those are the hashes, in their order.
pub proof fn law_hashes_come_in_batches(
    body: &[u8],
    max_hashes: usize,
    hashes: Result<Vec<[u8; 32]>, ByHashRefusal>,
)
    requires
        call_ensures(open_by_hash, (body, max_hashes), hashes),
    ensures
        list_in(body@, "hashes"@) is None ==> hashes is Err && hashes->Err_0 is Malformed,
        list_in(body@, "hashes"@) matches Some(list) ==> {
            let sound = forall|i: int| 0 <= i < list.len() ==> (#[trigger] list[i]).len() == 32;
            &&& hashes is Ok <==> sound && 1 <= list.len() <= max_hashes
            &&& !sound ==> hashes->Err_0 is Malformed
            &&& sound && list.len() == 0 ==> hashes->Err_0 is EmptyBatch
            &&& sound && list.len() > max_hashes && list.len() > 0 ==> hashes->Err_0
                is TooManyHashes
            &&& hashes matches Ok(h) ==> h@.len() == list.len() && forall|i: int|
                0 <= i < list.len() ==> (#[trigger] h@[i])@ == list[i]
        },
{
    if let Ok(h) = hashes {
        let list = list_in(body@, "hashes"@)->Some_0;
        assert forall|i: int| 0 <= i < list.len() implies (#[trigger] h@[i])@ == list[i] by {
            assert(key_strings(h@)[i] == h@[i]@);
        }
    }
}

/// A body lists byte strings under a key exactly where it is a map with that
/// one key, and an array of nothing but byte strings under it.
pub proof fn law_lists_stand_alone(body: &[u8], key: &str, list: Option<Vec<Vec<u8>>>)
    requires
        call_ensures(decode_list, (body, key), list),
    ensures
        list is Some <==> (cbor::cbor_decoding(body@) matches Some(CborView::Dict(e)) && e.len()
            == 1 && e[0].0 == CborView::Text(key@) && (e[0].1 matches CborView::Array(items)
            && forall|i: int| 0 <= i < items.len() ==> (#[trigger] items[i]) is Bytes)),
        list matches Some(l) ==> {
            let items = cbor::cbor_decoding(body@)->Some_0->Dict_0[0].1->Array_0;
            &&& l@.len() == items.len()
            &&& forall|i: int|
                0 <= i < items.len() ==> #[trigger] items[i] == CborView::Bytes(l@[i]@)
        },
{
    if let Some(l) = list {
        let items = cbor::cbor_decoding(body@)->Some_0->Dict_0[0].1->Array_0;
        let listed = Seq::new(items.len(), |i: int| items[i]->Bytes_0);
        assert(byte_strings(l@) == listed);
        assert(byte_strings(l@).len() == l@.len());
        assert forall|i: int| 0 <= i < items.len() implies #[trigger] items[i] == CborView::Bytes(
            l@[i]@,
        ) by {
            assert(byte_strings(l@)[i] == l@[i]@);
            assert(listed[i] == items[i]->Bytes_0);
        }
    }
}

/// A hash more is answered behind the others: with its object where that was
/// found, and as missing where it was not.
pub proof fn law_every_hash_gets_its_answer(
    hashes: &Vec<[u8; 32]>,
    found: &Vec<Option<Vec<u8>>>,
    more_hashes: &Vec<[u8; 32]>,
    more_found: &Vec<Option<Vec<u8>>>,
    hash: [u8; 32],
    object: Option<Vec<u8>>,
    body: Vec<u8>,
    more_body: Vec<u8>,
)
    requires
        hashes@.len() == found@.len(),
        more_hashes@ == hashes@.push(hash),
        more_found@ == found@.push(object),
        call_ensures(encode_by_hash, (hashes, found), body),
        call_ensures(encode_by_hash, (more_hashes, more_found), more_body),
    ensures
        cbor::cbor_decoding(body@) matches Some(CborView::Dict(e)) && e.len() == 2 && e[0].0
            == CborView::Text("objects"@) && e[1].0 == CborView::Text("missing"@) && (
        e[0].1 matches CborView::Array(objects) && (e[1].1 matches CborView::Array(missing) && (
        cbor::cbor_decoding(more_body@) matches Some(CborView::Dict(f)) && f.len() == 2 && f[0].0
            == CborView::Text("objects"@) && f[1].0 == CborView::Text("missing"@) && f[0].1
            == CborView::Array(
            match object {
                Some(wire) => objects.push(CborView::Bytes(wire@)),
                None => objects,
            },
        ) && f[1].1 == CborView::Array(
            match object {
                Some(_) => missing,
                None => missing.push(CborView::Bytes(hash@)),
            },
        )))),
{
    assert(more_found@.drop_last() =~= found@);
    assert(more_hashes@.drop_last() =~= hashes@);
    let objects = bytes_array(found_objects(found@))->Array_0;
    let missing = bytes_array(missing_hashes(hashes@, found@))->Array_0;
    let more_objects = bytes_array(found_objects(more_found@))->Array_0;
    let more_missing = bytes_array(missing_hashes(more_hashes@, more_found@))->Array_0;
    match object {
        Some(wire) => {
            assert(more_objects =~= objects.push(CborView::Bytes(wire@)));
            assert(more_missing =~= missing);
        },
        None => {
            assert(more_objects =~= objects);
            assert(more_missing =~= missing.push(CborView::Bytes(hash@)));
        },
    }
}

/// Every object of a push is reported on, in the order of the push: with its
/// hash, its outcome and, where there is one, the reason.
pub proof fn law_every_object_is_reported_on<S: Outcome>(
    results: &[PushResult<S>],
    body: Vec<u8>,
    i: int,
)
    requires
        call_ensures(encode_results::<S>, (results,), body),
        0 <= i < results@.len(),
    ensures
        cbor::cbor_decoding(body@) matches Some(CborView::Dict(all)) && all.len() == 1
            && all[0].0 == CborView::Text("results"@) && (all[0].1 matches CborView::Array(list)
            && list.len() == results@.len() && (list[i] matches CborView::Dict(e) && {
            &&& e[0] == (
                CborView::Text("canonical_hash"@),
                CborView::Bytes(results@[i].canonical_hash@),
            )
            &&& e[1] == (
                CborView::Text("status"@),
                CborView::Text(results@[i].status.status_text()),
            )
            &&& results@[i].status.reason_text() is None ==> e.len() == 2
            &&& results@[i].status.reason_text() matches Some(r) ==> e.len() == 3 && e[2] == (
                CborView::Text("reason"@),
                CborView::Text(r),
            )
        })),
{
}

/// The objects of a push are taken exactly where the sender is within its
/// budget of a minute and the body lists one to the most that may come at
/// once: those are the objects, in their order. The push counts in any case.
pub proof fn law_objects_come_in_batches(
    limiter: &mut PushRateLimiter,
    sender: [u8; 32],
    now_secs: u64,
    body: &[u8],
    max_batch: usize,
    objects: Result<Vec<Vec<u8>>, PushRefusal>,
)
    requires
        call_ensures(open_objects_push, (limiter, sender, now_secs, body, max_batch), objects),
        old(limiter).wf(),
    ensures
        ({
            let t = old(limiter)@;
            let used = if t.contains_key(sender@) && now_secs < t[sender@].start_secs + 60 {
                t[sender@].count as int
            } else {
                0
            };
            let admitted = used < old(limiter).budget();
            let listed = list_in(body@, "objects"@);
            &&& objects is Ok <==> admitted && (listed matches Some(l) && 1 <= l.len()
                <= max_batch)
            &&& !admitted ==> objects->Err_0 is RateLimited
            &&& admitted && listed is None ==> objects->Err_0 is Malformed
            &&& admitted && (listed matches Some(l) && l.len() == 0) ==> objects->Err_0
                is EmptyBatch
            &&& admitted && (listed matches Some(l) && l.len() > max_batch && l.len() > 0)
                ==> objects->Err_0 is BatchTooLarge
            &&& objects matches Ok(o) ==> byte_strings(o@) == listed->Some_0
            &&& final(limiter)@[sender@].count == if admitted {
                used + 1
            } else {
                used
            }
        }),
{
}

/// A list that was written under a key is read under that key, and the hashes
/// in it where each is one.
pub proof fn law_written_lists_are_read(
    key: &str,
    list: &Vec<Vec<u8>>,
    written: Vec<u8>,
    body: &[u8],
    read: Option<Vec<Vec<u8>>>,
    hashes: Option<Vec<[u8; 32]>>,
)
    requires
        call_ensures(encode_list, (key, list), written),
        body@ == written@,
        call_ensures(decode_list, (body, key), read),
        call_ensures(decode_hashes, (body, key), hashes),
    ensures
        read matches Some(l) && byte_strings(l@) == byte_strings(list@),
        hashes is Some <==> forall|i: int| 0 <= i < list@.len() ==> (#[trigger] list@[i])@.len()
            == 32,
        hashes matches Some(h) ==> key_strings(h@) == byte_strings(list@),
{
    let all = byte_strings(list@);
    assert(forall|i: int| 0 <= i < list@.len() ==> #[trigger] all[i] == list@[i]@);
    if hashes is Some {
        assert forall|i: int| 0 <= i < list@.len() implies (#[trigger] list@[i])@.len() == 32 by {
            assert(all[i].len() == 32);
        }
    }
}

/// The errors of a push and of a backfill have their words.
pub proof fn law_errors_have_their_words(
    refusal: PushRefusal,
    error: Option<&'static str>,
    by_hash: ByHashRefusal,
    word: &'static str,
)
    requires
        call_ensures(PushRefusal::error, (&refusal,), error),
        call_ensures(ByHashRefusal::as_str, (&by_hash,), word),
    ensures
        refusal is RateLimited ==> error is None,
        refusal is Malformed ==> (error matches Some(e) && e@ == "malformed"@),
        refusal is EmptyBatch ==> (error matches Some(e) && e@ == "empty_batch"@),
        refusal is BatchTooLarge ==> (error matches Some(e) && e@ == "batch_too_large"@),
        by_hash is Malformed ==> word@ == "malformed"@,
        by_hash is EmptyBatch ==> word@ == "empty_batch"@,
        by_hash is TooManyHashes ==> word@ == "too_many_hashes"@,
{
}

/// The bodies of a push and of a backfill are read from their own keys.
pub proof fn law_bodies_have_their_keys(
    bytes: &[u8],
    objects: Option<ObjectsBody>,
    hashes: Option<HashesBody>,
)
    requires
        call_ensures(ObjectsBody::decode, (bytes,), objects),
        call_ensures(HashesBody::decode, (bytes,), hashes),
    ensures
        objects is Some <==> list_in(bytes@, "objects"@) is Some,
        objects matches Some(b) ==> list_in(bytes@, "objects"@) == Some(byte_strings(b.objects@)),
        hashes is Some <==> (list_in(bytes@, "hashes"@) matches Some(l) && forall|i: int|
            0 <= i < l.len() ==> (#[trigger] l[i]).len() == 32),
        hashes matches Some(b) ==> list_in(bytes@, "hashes"@) == Some(key_strings(b.hashes@)),
{
}

} // verus!
