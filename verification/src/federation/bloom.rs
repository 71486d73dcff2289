//! Bloom filters over byte strings: the set of keys that a peer wants to hear
//! of, told with some over-approximation and never with an omission.

use vstd::prelude::*;

use crate::crypto;
use crate::crypto::sha256;

verus! {

/// The most hash functions that a filter may use.
pub const MAX_HASHES: u32 = 64;

/// A false-positive rate of one, in parts per million.
pub const WHOLE_PPM: u32 = 1_000_000;

/// Why the parts of a filter do not make one.
#[derive(Clone, Copy, Debug, PartialEq, Eq, Structural)]
pub enum BloomError {
    /// The number of hash functions is zero or too large.
    HashCount,
    /// The number of bits is zero or not a multiple of eight.
    BitCount,
    /// The false-positive rate is not between zero and one.
    Rate,
    /// There are not as many bytes as there are bits for.
    Length,
}

/// A Bloom filter.
#[derive(Debug)]
pub struct BloomFilter {
    k: u32,
    m: u32,
    n_est: u64,
    fpr_ppm: u32,
    bytes: Vec<u8>,
}

/// Whether a bit is set.
pub open spec fn has_bit(bytes: Seq<u8>, i: int) -> bool {
    bytes[i / 8] & (1u8 << (i % 8) as u8) != 0
}

/// The number that eight bytes write, the most significant first.
pub open spec fn be64(b: Seq<u8>) -> int {
    b[0] * 0x100_0000_0000_0000 + b[1] * 0x1_0000_0000_0000 + b[2] * 0x100_0000_0000 + b[3]
        * 0x1_0000_0000 + b[4] * 0x100_0000 + b[5] * 0x1_0000 + b[6] * 0x100 + b[7]
}

/// The bit that a key marks with its `i`-th hash function.
pub open spec fn marked_bit(key: Seq<u8>, i: int, m: int) -> int {
    let digest = crypto::sha256_digest(key);
    (be64(digest.subrange(0, 8)) + i * be64(digest.subrange(8, 16))) % m
}

/// Whether a key marks a bit.
pub open spec fn marks(key: Seq<u8>, k: int, m: int, bit: int) -> bool {
    exists|i: int| 0 <= i < k && bit == #[trigger] marked_bit(key, i, m)
}

/// Whether a filter tells that a key is in it: all bits that the key marks
/// are set.
pub open spec fn tells(bytes: Seq<u8>, k: int, m: int, key: Seq<u8>) -> bool {
    forall|i: int| 0 <= i < k ==> has_bit(bytes, #[trigger] marked_bit(key, i, m))
}

/// Whether `after` is a filter with the bits of a key set beside those of
/// `before`.
pub open spec fn is_inserted(
    before: Seq<u8>,
    after: Seq<u8>,
    k: int,
    m: int,
    key: Seq<u8>,
) -> bool {
    &&& after.len() == before.len()
    &&& forall|bit: int|
        0 <= bit < m ==> (#[trigger] has_bit(after, bit) <==> has_bit(before, bit) || marks(
            key,
            k,
            m,
            bit,
        ))
}

/// A key that was put into a filter is told to be in it, and so is every key
/// that was told before: there are no false negatives.
pub proof fn law_no_false_negatives(
    before: Seq<u8>,
    after: Seq<u8>,
    k: int,
    m: int,
    key: Seq<u8>,
    other: Seq<u8>,
)
    requires
        m > 0,
        is_inserted(before, after, k, m, key),
    ensures
        tells(after, k, m, key),
        tells(before, k, m, other) ==> tells(after, k, m, other),
{
    assert forall|i: int| 0 <= i < k implies has_bit(after, #[trigger] marked_bit(key, i, m)) by {
        lemma_marked_bit_is_a_bit(key, i, m);
        assert(marks(key, k, m, marked_bit(key, i, m)));
    }
    if tells(before, k, m, other) {
        assert forall|i: int| 0 <= i < k implies has_bit(
            after,
            #[trigger] marked_bit(other, i, m),
        ) by {
            lemma_marked_bit_is_a_bit(other, i, m);
            assert(has_bit(before, marked_bit(other, i, m)));
        }
    }
}

/// A filter without a set bit tells of no key.
pub proof fn law_empty_filter_tells_of_nothing(bytes: Seq<u8>, k: int, m: int, key: Seq<u8>)
    requires
        k > 0,
        m > 0,
        forall|bit: int| 0 <= bit < m ==> !#[trigger] has_bit(bytes, bit),
    ensures
        !tells(bytes, k, m, key),
{
    lemma_marked_bit_is_a_bit(key, 0, m);
    assert(!has_bit(bytes, marked_bit(key, 0, m)));
}

proof fn lemma_marked_bit_is_a_bit(key: Seq<u8>, i: int, m: int)
    requires
        m > 0,
    ensures
        0 <= marked_bit(key, i, m) < m,
{
    let digest = crypto::sha256_digest(key);
    let x = be64(digest.subrange(0, 8)) + i * be64(digest.subrange(8, 16));
    assert(0 <= x % m < m) by (nonlinear_arith)
        requires
            m > 0,
    ;
}

proof fn lemma_set_bit(b: u8, j: u8, l: u8)
    by (bit_vector)
    requires
        j < 8,
        l < 8,
    ensures
        ((b | (1u8 << j)) & (1u8 << l)) != 0 <==> (l == j || (b & (1u8 << l)) != 0),
{
}

proof fn lemma_zero_has_no_bit(l: u8)
    by (bit_vector)
    ensures
        0u8 & (1u8 << l) == 0,
{
}

fn read_be64(d: &[u8; 32], at: usize) -> (n: u64)
    requires
        at <= 24,
    ensures
        n == be64(d@.subrange(at as int, at + 8)),
{
    d[at] as u64 * 0x100_0000_0000_0000 + d[at + 1] as u64 * 0x1_0000_0000_0000 + d[at + 2] as u64
        * 0x100_0000_0000 + d[at + 3] as u64 * 0x1_0000_0000 + d[at + 4] as u64 * 0x100_0000 + d[at
        + 5] as u64 * 0x1_0000 + d[at + 6] as u64 * 0x100 + d[at + 7] as u64
}

fn mark(digest: &[u8; 32], i: u32, m: u32) -> (bit: u32)
    requires
        m > 0,
        i < MAX_HASHES,
    ensures
        bit < m,
        forall|key: Seq<u8>|
            #![trigger marked_bit(key, i as int, m as int)]
            digest@ == crypto::sha256_digest(key) ==> bit == marked_bit(key, i as int, m as int),
{
    let h1: u64 = read_be64(digest, 0);
    let h2: u64 = read_be64(digest, 8);
    proof {
        assert(i * h2 <= 64 * 0x1_0000_0000_0000_0000) by (nonlinear_arith)
            requires
                i < 64,
                h2 < 0x1_0000_0000_0000_0000,
        ;
        assert(0 <= i * h2) by (nonlinear_arith);
    }
    let sum: u128 = h1 as u128 + i as u128 * h2 as u128;
    (sum % m as u128) as u32
}

impl BloomFilter {
    /// The number of hash functions.
    pub closed spec fn hashes(&self) -> int {
        self.k as int
    }

    /// The number of bits.
    pub closed spec fn bits(&self) -> int {
        self.m as int
    }

    /// The bits.
    pub closed spec fn view(&self) -> Seq<u8> {
        self.bytes@
    }

    /// The filter has bits and hash functions, and a byte for each eight bits.
    pub closed spec fn wf(&self) -> bool {
        &&& 0 < self.k <= MAX_HASHES
        &&& self.m > 0
        &&& self.m % 8 == 0
        &&& self.bytes@.len() * 8 == self.m
    }

    /// How many keys the filter was made for.
    pub closed spec fn estimate(&self) -> u64 {
        self.n_est
    }

    /// The false-positive rate that the filter was made for, in parts per
    /// million.
    pub closed spec fn rate(&self) -> u32 {
        self.fpr_ppm
    }

    /// Whether the filter tells that a key is in it.
    pub open spec fn has(&self, key: Seq<u8>) -> bool {
        tells(self@, self.hashes(), self.bits(), key)
    }

    /// Makes a filter of its parts.
    pub fn from_parts(k: u32, m: u32, n_est: u64, fpr_ppm: u32, bytes: Vec<u8>) -> (filter: Result<
        BloomFilter,
        BloomError,
    >)
        ensures
            match filter {
                Ok(f) => f.wf() && 0 < k <= MAX_HASHES && m > 0 && m % 8 == 0 && 0 < fpr_ppm
                    < WHOLE_PPM && bytes@.len() * 8 == m && f.hashes() == k && f.bits() == m
                    && f.estimate() == n_est && f.rate() == fpr_ppm && f@ == bytes@,
                Err(BloomError::HashCount) => k == 0 || k > MAX_HASHES,
                Err(BloomError::BitCount) => 0 < k <= MAX_HASHES && (m == 0 || m % 8 != 0),
                Err(BloomError::Rate) => 0 < k <= MAX_HASHES && m > 0 && m % 8 == 0 && (fpr_ppm
                    == 0 || fpr_ppm >= WHOLE_PPM),
                Err(BloomError::Length) => 0 < k <= MAX_HASHES && m > 0 && m % 8 == 0 && 0
                    < fpr_ppm < WHOLE_PPM && bytes@.len() * 8 != m,
            },
    {
        if k == 0 || k > MAX_HASHES {
            return Err(BloomError::HashCount);
        }
        if m == 0 || m % 8 != 0 {
            return Err(BloomError::BitCount);
        }
        if fpr_ppm == 0 || fpr_ppm >= WHOLE_PPM {
            return Err(BloomError::Rate);
        }
        if bytes.len() as u64 != (m / 8) as u64 {
            return Err(BloomError::Length);
        }
        Ok(BloomFilter { k, m, n_est, fpr_ppm, bytes })
    }

    /// A filter without a set bit.
    pub fn new_empty(k: u32, m: u32, n_est: u64, fpr_ppm: u32) -> (filter: Result<
        BloomFilter,
        BloomError,
    >)
        ensures
            filter is Ok <==> 0 < k <= MAX_HASHES && m > 0 && m % 8 == 0 && 0 < fpr_ppm
                < WHOLE_PPM,
            filter matches Ok(f) ==> f.wf() && f.hashes() == k && f.bits() == m && f.estimate()
                == n_est && f.rate() == fpr_ppm && forall|bit: int|
                0 <= bit < m ==> !#[trigger] has_bit(f@, bit),
            filter matches Err(e) ==> e == (if k == 0 || k > MAX_HASHES {
                BloomError::HashCount
            } else if m == 0 || m % 8 != 0 {
                BloomError::BitCount
            } else {
                BloomError::Rate
            }),
    {
        let mut bytes: Vec<u8> = Vec::new();
        let n: usize = (m / 8) as usize;
        while bytes.len() < n
            invariant
                bytes@.len() <= n,
                forall|i: int| 0 <= i < bytes@.len() ==> #[trigger] bytes@[i] == 0,
            decreases n - bytes@.len(),
        {
            bytes.push(0);
        }
        proof {
            assert forall|bit: int| 0 <= bit < m && m % 8 == 0 implies !#[trigger] has_bit(
                bytes@,
                bit,
            ) by {
                assert(bytes@[bit / 8] == 0);
                lemma_zero_has_no_bit((bit % 8) as u8);
            }
        }
        Self::from_parts(k, m, n_est, fpr_ppm, bytes)
    }

    /// How many keys the filter was made for.
    pub fn n_est(&self) -> (n: u64)
        ensures
            n == self.estimate(),
    {
        self.n_est
    }

    /// The false-positive rate that the filter was made for, in parts per
    /// million.
    pub fn fpr_ppm(&self) -> (rate: u32)
        ensures
            rate == self.rate(),
    {
        self.fpr_ppm
    }

    fn set_bit(&mut self, bit: u32)
        requires
            old(self).wf(),
            bit < old(self).bits(),
        ensures
            final(self).wf(),
            final(self).hashes() == old(self).hashes(),
            final(self).bits() == old(self).bits(),
            final(self).estimate() == old(self).estimate(),
            final(self).rate() == old(self).rate(),
            final(self)@.len() == old(self)@.len(),
            forall|l: int|
                0 <= l < old(self).bits() ==> (#[trigger] has_bit(final(self)@, l) <==> has_bit(
                    old(self)@,
                    l,
                ) || l == bit),
    {
        let at: usize = (bit / 8) as usize;
        let j: u8 = (bit % 8) as u8;
        let b: u8 = self.bytes[at];
        self.bytes.set(at, b | (1u8 << j));
        proof {
            assert forall|l: int| 0 <= l < self.bits() implies (#[trigger] has_bit(self@, l)
                <==> has_bit(old(self)@, l) || l == bit) by {
                if l / 8 == at {
                    lemma_set_bit(b, j, (l % 8) as u8);
                }
            }
        }
    }

    /// Puts a key in.
    pub fn insert(&mut self, key: &[u8])
        requires
            old(self).wf(),
        ensures
            final(self).wf(),
            final(self).hashes() == old(self).hashes(),
            final(self).bits() == old(self).bits(),
            final(self).estimate() == old(self).estimate(),
            final(self).rate() == old(self).rate(),
            is_inserted(old(self)@, final(self)@, old(self).hashes(), old(self).bits(), key@),
            final(self).has(key@),
    {
        let digest: [u8; 32] = sha256(key);
        let ghost before = self@;
        let ghost k = self.hashes();
        let ghost m = self.bits();
        let mut i: u32 = 0;
        while i < self.k
            invariant
                self.wf(),
                self.hashes() == k,
                self.bits() == m,
                self.estimate() == old(self).estimate(),
                self.rate() == old(self).rate(),
                i <= self.k,
                digest@ == crypto::sha256_digest(key@),
                is_inserted(before, self@, i as int, m, key@),
            decreases self.k - i,
        {
            let ghost part = self@;
            let bit: u32 = mark(&digest, i, self.m);
            assert(bit == marked_bit(key@, i as int, m));
            self.set_bit(bit);
            proof {
                assert forall|l: int| 0 <= l < m implies (#[trigger] has_bit(self@, l) <==> has_bit(
                    before,
                    l,
                ) || marks(key@, i + 1, m, l)) by {
                    assert(has_bit(part, l) <==> has_bit(before, l) || marks(
                        key@,
                        i as int,
                        m,
                        l,
                    ));
                    if marks(key@, i as int, m, l) {
                        let h = choose|h: int| 0 <= h < i && l == #[trigger] marked_bit(key@, h, m);
                        assert(l == marked_bit(key@, h, m));
                    }
                    if marks(key@, i + 1, m, l) {
                        let h = choose|h: int|
                            0 <= h < i + 1 && l == #[trigger] marked_bit(key@, h, m);
                        if h < i {
                            assert(marks(key@, i as int, m, l));
                        }
                    }
                }
            }
            i += 1;
        }
        proof {
            law_no_false_negatives(before, self@, k, m, key@, key@);
        }
    }

    /// Whether the filter tells that a key is in it.
    pub fn contains(&self, key: &[u8]) -> (yes: bool)
        requires
            self.wf(),
        ensures
            yes == self.has(key@),
    {
        let digest: [u8; 32] = sha256(key);
        let mut i: u32 = 0;
        while i < self.k
            invariant
                self.wf(),
                i <= self.k,
                digest@ == crypto::sha256_digest(key@),
                forall|h: int|
                    0 <= h < i ==> has_bit(self@, #[trigger] marked_bit(key@, h, self.bits())),
            decreases self.k - i,
        {
            let bit: u32 = mark(&digest, i, self.m);
            assert(bit == marked_bit(key@, i as int, self.bits()));
            let at: usize = (bit / 8) as usize;
            let j: u8 = (bit % 8) as u8;
            if self.bytes[at] & (1u8 << j) == 0 {
                assert(!has_bit(self@, marked_bit(key@, i as int, self.bits())));
                return false;
            }
            i += 1;
        }
        true
    }

    /// How many of the keys the filter tells of.
    pub open spec fn hits_of(&self, keys: Seq<[u8; 32]>) -> nat
        decreases keys.len(),
    {
        if keys.len() == 0 {
            0
        } else {
            self.hits_of(keys.drop_last()) + if self.has(keys.last()@) {
                1nat
            } else {
                0
            }
        }
    }

    /// How many of the keys the filter tells of.
    pub fn coverage(&self, keys: &[[u8; 32]]) -> (hits: usize)
        requires
            self.wf(),
        ensures
            hits == self.hits_of(keys@),
            hits <= keys@.len(),
    {
        let mut hits: usize = 0;
        let mut i: usize = 0;
        assert(keys@.take(0) =~= Seq::<[u8; 32]>::empty());
        while i < keys.len()
            invariant
                self.wf(),
                i <= keys.len(),
                hits <= i,
                hits == self.hits_of(keys@.take(i as int)),
            decreases keys.len() - i,
        {
            assert(keys@.take(i + 1).drop_last() =~= keys@.take(i as int));
            assert(keys@.take(i + 1).last() == keys@[i as int]);
            if self.contains(keys[i].as_slice()) {
                hits += 1;
            }
            i += 1;
        }
        assert(keys@.take(i as int) =~= keys@);
        hits
    }
}

/// The most significant byte comes first: of two numbers the one with the
/// larger byte at their first difference is the larger.
pub proof fn law_numbers_are_read_from_the_left(a: Seq<u8>, b: Seq<u8>, n: int)
    requires
        a.len() == 8,
        b.len() == 8,
        0 <= n < 8,
        forall|i: int| 0 <= i < n ==> a[i] == #[trigger] b[i],
        a[n] < b[n],
    ensures
        be64(a) < be64(b),
        0 <= be64(a) && be64(b) <= u64::MAX,
{
    assert(forall|i: int| 0 <= i < n ==> #[trigger] a[i] == b[i]);
}

proof fn lemma_bit_weight(b: u8, j: u8)
    by (bit_vector)
    requires
        j < 8,
    ensures
        (b & (1u8 << j)) != 0 <==> (b >> j) % 2 == 1,
        j == 0 ==> b >> j == b,
        j == 1 ==> b >> j == b / 2,
        j == 2 ==> b >> j == b / 4,
        j == 3 ==> b >> j == b / 8,
        j == 4 ==> b >> j == b / 16,
        j == 5 ==> b >> j == b / 32,
        j == 6 ==> b >> j == b / 64,
        j == 7 ==> b >> j == b / 128,
{
}

/// Bits are numbered from the least significant one of the first byte on: a
/// bit is set where its byte, without the bits below it, is odd.
pub proof fn law_bits_are_numbered_from_the_lowest(bytes: Seq<u8>, i: int)
    requires
        0 <= i < 8 * bytes.len(),
    ensures
        ({
            let b = bytes[i / 8];
            let rest = if i % 8 == 0 {
                b as int
            } else if i % 8 == 1 {
                b as int / 2
            } else if i % 8 == 2 {
                b as int / 4
            } else if i % 8 == 3 {
                b as int / 8
            } else if i % 8 == 4 {
                b as int / 16
            } else if i % 8 == 5 {
                b as int / 32
            } else if i % 8 == 6 {
                b as int / 64
            } else {
                b as int / 128
            };
            has_bit(bytes, i) <==> rest % 2 == 1
        }),
{
    lemma_bit_weight(bytes[i / 8], (i % 8) as u8);
}

/// The bits of a key follow from its digest: the first is where the first
/// eight bytes lead, and each next one lies as far on, around the end, as the
/// second eight bytes say.
pub proof fn law_bits_of_a_key_are_evenly_spaced(key: Seq<u8>, i: int, m: int)
    requires
        m > 0,
        i >= 0,
    ensures
        ({
            let digest = crypto::sha256_digest(key);
            let first = be64(digest.subrange(0, 8));
            let step = be64(digest.subrange(8, 16));
            &&& 0 <= marked_bit(key, i, m) < m
            &&& marked_bit(key, 0, m) == first % m
            &&& marked_bit(key, i + 1, m) == (marked_bit(key, i, m) + step) % m
        }),
{
    let digest = crypto::sha256_digest(key);
    let first = be64(digest.subrange(0, 8));
    let step = be64(digest.subrange(8, 16));
    lemma_marked_bit_is_a_bit(key, i, m);
    assert(0 * step == 0);
    assert((i + 1) * step == i * step + step) by (nonlinear_arith);
    vstd::arithmetic::div_mod::lemma_add_mod_noop(first + i * step, step, m);
    vstd::arithmetic::div_mod::lemma_add_mod_noop((first + i * step) % m, step, m);
    vstd::arithmetic::div_mod::lemma_mod_twice(first + i * step, m);
}

/// A filter tells that a key is in it exactly where every bit of the key is
/// set.
pub proof fn law_a_filter_tells_by_all_bits(
    filter: &BloomFilter,
    key: &[u8],
    yes: bool,
    i: int,
)
    requires
        filter.wf(),
        call_ensures(BloomFilter::contains, (filter, key), yes),
    ensures
        yes && 0 <= i < filter.hashes() ==> has_bit(filter@, marked_bit(key@, i, filter.bits())),
        (forall|j: int|
            0 <= j < filter.hashes() ==> has_bit(
                filter@,
                #[trigger] marked_bit(key@, j, filter.bits()),
            )) ==> yes,
{
}

/// A key that is put in is told to be in from then on, and so is every key
/// that was before; no bit is set that is not one of the key's.
pub proof fn law_inserted_keys_are_told(
    filter: &mut BloomFilter,
    key: &[u8],
    unit: (),
    other: Seq<u8>,
    bit: int,
)
    requires
        old(filter).wf(),
        call_ensures(BloomFilter::insert, (filter, key), unit),
    ensures
        final(filter).has(key@),
        old(filter).has(other) ==> final(filter).has(other),
        final(filter).hashes() == old(filter).hashes() && final(filter).bits() == old(
            filter,
        ).bits(),
        0 <= bit < old(filter).bits() && has_bit(final(filter)@, bit) ==> has_bit(
            old(filter)@,
            bit,
        ) || exists|i: int|
            0 <= i < old(filter).hashes() && bit == #[trigger] marked_bit(
                key@,
                i,
                old(filter).bits(),
            ),
{
    law_no_false_negatives(
        old(filter)@,
        final(filter)@,
        old(filter).hashes(),
        old(filter).bits(),
        key@,
        other,
    );
}

/// With a key more, a filter covers one more exactly where it tells that the
/// key is in it.
pub proof fn law_coverage_counts_the_keys_that_are_told(
    filter: &BloomFilter,
    keys: &[[u8; 32]],
    hits: usize,
    more: &[[u8; 32]],
    more_hits: usize,
    key: [u8; 32],
    told: bool,
    slice: &[u8],
)
    requires
        filter.wf(),
        call_ensures(BloomFilter::coverage, (filter, keys), hits),
        call_ensures(BloomFilter::coverage, (filter, more), more_hits),
        more@ == keys@.push(key),
        slice@ == key@,
        call_ensures(BloomFilter::contains, (filter, slice), told),
    ensures
        more_hits == hits + if told {
            1int
        } else {
            0
        },
        keys@.len() == 0 ==> hits == 0,
{
    assert(more@.drop_last() =~= keys@);
    assert(more@.last() == key);
}

/// The parts of a filter make one exactly where it has one to 64 hash
/// functions, a whole number of bytes of bits, a rate between none and all,
/// and a byte for each eight bits.
pub proof fn law_sound_parts_make_a_filter(
    k: u32,
    m: u32,
    n_est: u64,
    fpr_ppm: u32,
    bytes: Vec<u8>,
    filter: Result<BloomFilter, BloomError>,
)
    requires
        call_ensures(BloomFilter::from_parts, (k, m, n_est, fpr_ppm, bytes), filter),
    ensures
        filter is Ok <==> 1 <= k <= 64 && m > 0 && m % 8 == 0 && 0 < fpr_ppm < 1_000_000
            && bytes@.len() * 8 == m,
        filter matches Ok(f) ==> f.hashes() == k && f.bits() == m && f@ == bytes@ && f.estimate()
            == n_est && f.rate() == fpr_ppm,
{
}

/// A new filter is made of sound parts alone, tells of no key, and keeps what
/// it was made for.
pub proof fn law_new_filters_are_empty(
    k: u32,
    m: u32,
    n_est: u64,
    fpr_ppm: u32,
    filter: Result<BloomFilter, BloomError>,
    key: Seq<u8>,
)
    requires
        call_ensures(BloomFilter::new_empty, (k, m, n_est, fpr_ppm), filter),
    ensures
        filter is Ok <==> 1 <= k <= 64 && m > 0 && m % 8 == 0 && 0 < fpr_ppm < 1_000_000,
        filter matches Ok(f) ==> !f.has(key) && f.hashes() == k && f.bits() == m && f.estimate()
            == n_est && f.rate() == fpr_ppm,
{
    if let Ok(f) = filter {
        law_empty_filter_tells_of_nothing(f@, f.hashes(), f.bits(), key);
    }
}

} // verus!
