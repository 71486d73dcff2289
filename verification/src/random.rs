//! Randomness of the operating system, by `rand`.

use rand::rngs::OsRng;
use rand::RngCore;
use vstd::prelude::*;

verus! {

/// `rand::rngs::OsRng::try_fill_bytes`, 32 bytes of it. Nothing is claimed of
/// the bytes; there are none where the system has none to give.
#[verifier::external_body]
pub(crate) fn random_32() -> (bytes: Option<[u8; 32]>) {
    let mut bytes = [0u8; 32];
    OsRng.try_fill_bytes(&mut bytes).ok().map(|_| bytes)
}

/// The first half of 32 bytes.
pub(crate) fn first_half(bytes: &[u8; 32]) -> (half: [u8; 16])
    ensures
        half@ == bytes@.take(16),
{
    let half: [u8; 16] = [
        bytes[0],
        bytes[1],
        bytes[2],
        bytes[3],
        bytes[4],
        bytes[5],
        bytes[6],
        bytes[7],
        bytes[8],
        bytes[9],
        bytes[10],
        bytes[11],
        bytes[12],
        bytes[13],
        bytes[14],
        bytes[15],
    ];
    assert(half@ =~= bytes@.take(16));
    half
}

/// Whether 16 bytes have the shape of a random UUID: version 4, of the usual
/// variant.
pub open spec fn is_v4_shaped(id: Seq<u8>) -> bool {
    &&& id.len() == 16
    &&& id[6] / 16 == 4
    &&& id[8] / 64 == 2
}

/// Bytes in the shape of a random UUID: all but six bits are as they were.
pub(crate) fn v4_shaped(bytes: &[u8; 16]) -> (id: [u8; 16])
    ensures
        is_v4_shaped(id@),
        id@ == bytes@.update(6, (64 + bytes@[6] % 16) as u8).update(
            8,
            (128 + bytes@[8] % 64) as u8,
        ),
{
    let mut id: [u8; 16] = *bytes;
    id[6] = 64 + bytes[6] % 16;
    id[8] = 128 + bytes[8] % 64;
    id
}

/// 16 random bytes, where the system has them to give.
pub(crate) fn random_16() -> (bytes: Option<[u8; 16]>) {
    match random_32() {
        Some(bytes) => Some(first_half(&bytes)),
        None => None,
    }
}

} // verus!
