//! Bodies that are maps of byte strings with fixed keys and nothing else, and
//! the frame of a signed object, which is one.

use vstd::prelude::*;

use crate::cbor;
use crate::cbor::{Cbor, CborView, DictBuilder};
use crate::federation::fields;
use crate::federation::signed::SignedObject;
use crate::text::same_text;

verus! {

/// The byte string under `key` in a map that holds nothing else.
pub open spec fn sole_bytes(e: Seq<(CborView, CborView)>, key: Seq<char>) -> Option<Seq<u8>> {
    if e.len() == 1 && e[0].0 == CborView::Text(key) && e[0].1 is Bytes {
        Some(e[0].1->Bytes_0)
    } else {
        None
    }
}

/// The byte strings under two keys in a map that holds nothing else, in
/// either order.
pub open spec fn two_bytes(
    e: Seq<(CborView, CborView)>,
    first: Seq<char>,
    second: Seq<char>,
) -> Option<(Seq<u8>, Seq<u8>)> {
    if e.len() != 2 || !(e[0].1 is Bytes) || !(e[1].1 is Bytes) {
        None
    } else if e[0].0 == CborView::Text(first) && e[1].0 == CborView::Text(second) {
        Some((e[0].1->Bytes_0, e[1].1->Bytes_0))
    } else if e[0].0 == CborView::Text(second) && e[1].0 == CborView::Text(first) {
        Some((e[1].1->Bytes_0, e[0].1->Bytes_0))
    } else {
        None
    }
}

/// The map with a byte string under one key.
pub open spec fn sole_body(key: Seq<char>, bytes: Seq<u8>) -> CborView {
    CborView::Dict(
        Seq::<(CborView, CborView)>::empty().push((CborView::Text(key), CborView::Bytes(bytes))),
    )
}

/// The map with byte strings under two keys.
pub open spec fn two_body(
    first: Seq<char>,
    one: Seq<u8>,
    second: Seq<char>,
    other: Seq<u8>,
) -> CborView {
    CborView::Dict(
        Seq::<(CborView, CborView)>::empty().push(
            (CborView::Text(first), CborView::Bytes(one)),
        ).push((CborView::Text(second), CborView::Bytes(other))),
    )
}

/// The byte string under `key` in a body that holds nothing else.
pub open spec fn sole_in(body: Seq<u8>, key: Seq<char>) -> Option<Seq<u8>> {
    match cbor::cbor_decoding(body) {
        Some(CborView::Dict(e)) => sole_bytes(e, key),
        _ => None,
    }
}

/// The byte strings under two keys in a body that holds nothing else.
pub open spec fn two_in(body: Seq<u8>, first: Seq<char>, second: Seq<char>) -> Option<
    (Seq<u8>, Seq<u8>),
> {
    match cbor::cbor_decoding(body) {
        Some(CborView::Dict(e)) => two_bytes(e, first, second),
        _ => None,
    }
}

/// A map with byte strings under one key, or under two, reads back.
pub proof fn law_bodies_read_back(
    first: Seq<char>,
    one: Seq<u8>,
    second: Seq<char>,
    other: Seq<u8>,
)
    ensures
        sole_bytes(sole_body(first, one)->Dict_0, first) == Some(one),
        two_bytes(two_body(first, one, second, other)->Dict_0, first, second) == Some(
            (one, other),
        ),
{
}

fn is_named(item: &Cbor, key: &str) -> (named: bool)
    ensures
        named == (item@ == CborView::Text(key@)),
{
    match item {
        Cbor::Text(t) => same_text(t.as_str(), key),
        _ => false,
    }
}

fn copy_of(item: &Cbor) -> (bytes: Option<Vec<u8>>)
    ensures
        match item@ {
            CborView::Bytes(b) => bytes matches Some(v) && v@ == b,
            _ => bytes is None,
        },
{
    match item {
        Cbor::Bytes(b) => Some(vstd::slice::slice_to_vec(b.as_slice())),
        _ => None,
    }
}

/// Reads the byte string under `key` from a body that holds nothing else.
pub fn read_sole(body: &[u8], key: &str) -> (bytes: Option<Vec<u8>>)
    ensures
        match bytes {
            Some(b) => sole_in(body@, key@) == Some(b@),
            None => sole_in(body@, key@) is None,
        },
{
    let item: Cbor = match cbor::decode(body) {
        Some(item) => item,
        None => return None,
    };
    proof {
        cbor::lemma_dict_view(item);
    }
    match &item {
        Cbor::Dict(entries) => {
            if entries.len() != 1 || !is_named(&entries[0].0, key) {
                return None;
            }
            copy_of(&entries[0].1)
        },
        _ => None,
    }
}

/// Reads the byte strings under two keys from a body that holds nothing else.
pub fn read_two(body: &[u8], first: &str, second: &str) -> (pair: Option<(Vec<u8>, Vec<u8>)>)
    ensures
        match pair {
            Some((a, b)) => two_in(body@, first@, second@) == Some((a@, b@)),
            None => two_in(body@, first@, second@) is None,
        },
{
    let item: Cbor = match cbor::decode(body) {
        Some(item) => item,
        None => return None,
    };
    proof {
        cbor::lemma_dict_view(item);
    }
    match &item {
        Cbor::Dict(entries) => {
            if entries.len() != 2 {
                return None;
            }
            let one: Vec<u8> = match copy_of(&entries[0].1) {
                Some(b) => b,
                None => return None,
            };
            let other: Vec<u8> = match copy_of(&entries[1].1) {
                Some(b) => b,
                None => return None,
            };
            if is_named(&entries[0].0, first) && is_named(&entries[1].0, second) {
                Some((one, other))
            } else if is_named(&entries[0].0, second) && is_named(&entries[1].0, first) {
                Some((other, one))
            } else {
                None
            }
        },
        _ => None,
    }
}

/// Writes a byte string under one key.
pub fn write_sole(key: &str, bytes: &[u8]) -> (body: Vec<u8>)
    ensures
        body@ == cbor::cbor_encoding(sole_body(key@, bytes@)),
        cbor::cbor_decoding(body@) == Some(sole_body(key@, bytes@)),
        sole_in(body@, key@) == Some(bytes@),
{
    let mut dict = DictBuilder::new();
    dict.put(key, cbor::bytes(bytes));
    proof {
        fields::lemma_plain_is_writable(dict@);
        law_bodies_read_back(key@, bytes@, key@, bytes@);
    }
    let item: Cbor = dict.finish();
    cbor::encode(&item)
}

/// Writes byte strings under two keys.
pub fn write_two(first: &str, one: &[u8], second: &str, other: &[u8]) -> (body: Vec<u8>)
    ensures
        body@ == cbor::cbor_encoding(two_body(first@, one@, second@, other@)),
        cbor::cbor_decoding(body@) == Some(two_body(first@, one@, second@, other@)),
        two_in(body@, first@, second@) == Some((one@, other@)),
{
    let mut dict = DictBuilder::new();
    dict.put(first, cbor::bytes(one));
    dict.put(second, cbor::bytes(other));
    proof {
        fields::lemma_plain_is_writable(dict@);
        law_bodies_read_back(first@, one@, second@, other@);
    }
    let item: Cbor = dict.finish();
    cbor::encode(&item)
}

/// The payload and the signature in the frame of a signed object.
pub open spec fn signed_object_in(bytes: Seq<u8>) -> Option<(Seq<u8>, Seq<u8>)> {
    two_in(bytes, "p"@, "s"@)
}

/// Takes a signed object out of its frame.
pub fn decode_signed_object(bytes: &[u8]) -> (object: Option<SignedObject>)
    ensures
        match object {
            Some(o) => signed_object_in(bytes@) == Some((o.payload@, o.signature@)),
            None => signed_object_in(bytes@) is None,
        },
{
    match read_two(bytes, "p", "s") {
        Some((payload, signature)) => Some(SignedObject { payload, signature }),
        None => None,
    }
}

/// Puts a signed object into its frame.
pub fn encode_signed_object(payload: &[u8], signature: &[u8]) -> (bytes: Vec<u8>)
    ensures
        bytes@ == cbor::cbor_encoding(two_body("p"@, payload@, "s"@, signature@)),
        signed_object_in(bytes@) == Some((payload@, signature@)),
{
    write_two("p", payload, "s", signature)
}

/// A body holds a byte string under one key alone exactly where it is a map
/// of that one entry.
pub proof fn law_sole_entries_stand_alone(body: &[u8], key: &str, bytes: Option<Vec<u8>>)
    requires
        call_ensures(read_sole, (body, key), bytes),
    ensures
        bytes is Some <==> (cbor::cbor_decoding(body@) matches Some(CborView::Dict(e)) && e.len()
            == 1 && e[0].0 == CborView::Text(key@) && e[0].1 is Bytes),
        bytes matches Some(b) ==> (cbor::cbor_decoding(body@) matches Some(CborView::Dict(e))
            && e[0].1 == CborView::Bytes(b@)),
{
}

/// A body holds byte strings under two keys alone exactly where it is a map of
/// those two entries, in either order; each is read from under its own key.
pub proof fn law_two_entries_stand_alone(
    body: &[u8],
    first: &str,
    second: &str,
    pair: Option<(Vec<u8>, Vec<u8>)>,
)
    requires
        call_ensures(read_two, (body, first, second), pair),
        first@ != second@,
    ensures
        cbor::cbor_decoding(body@) matches Some(CborView::Dict(e)) ==> {
            let a = CborView::Text(first@);
            let b = CborView::Text(second@);
            &&& pair is Some <==> e.len() == 2 && e[0].1 is Bytes && e[1].1 is Bytes && ((e[0].0
                == a && e[1].0 == b) || (e[0].0 == b && e[1].0 == a))
            &&& pair matches Some(p) ==> e.contains((a, CborView::Bytes(p.0@))) && e.contains(
                (b, CborView::Bytes(p.1@)),
            )
        },
        !(cbor::cbor_decoding(body@) matches Some(v) && v is Dict) ==> pair is None,
{
    if let Some(p) = pair {
        let e = cbor::cbor_decoding(body@)->Some_0->Dict_0;
        assert(e.contains(e[0]) && e.contains(e[1]));
    }
}

/// A signed object that was framed comes out of its frame as it was: payload
/// and signature, each in its place.
pub proof fn law_frames_hold_payload_and_signature(
    payload: &[u8],
    signature: &[u8],
    framed: Vec<u8>,
    bytes: &[u8],
    object: Option<SignedObject>,
)
    requires
        call_ensures(encode_signed_object, (payload, signature), framed),
        bytes@ == framed@,
        call_ensures(decode_signed_object, (bytes,), object),
    ensures
        object matches Some(o) && o.payload@ == payload@ && o.signature@ == signature@,
{
}

} // verus!
