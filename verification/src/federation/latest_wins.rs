//! Which of two signed claims about one subject stands: the later one, and
//! of two with one timestamp the one with the smaller hash.

use vstd::prelude::*;

use crate::bytes;
use crate::bytes::bytes_less;

verus! {

/// The claim that stands so far, as it is stored.
#[derive(Debug)]
pub struct CurrentClaim {
    pub created_at: i64,
    pub hash: Vec<u8>,
}

/// A claim: when it was made, and its canonical hash.
pub struct Claim {
    pub created_at: u64,
    pub hash: Seq<u8>,
}

impl CurrentClaim {
    /// The stored claim. A negative timestamp, which no write leaves, counts
    /// as the epoch.
    pub open spec fn view(&self) -> Claim {
        Claim {
            created_at: if self.created_at < 0 {
                0
            } else {
                self.created_at as u64
            },
            hash: self.hash@,
        }
    }
}

/// The claim that an optional row stores.
pub open spec fn stored_claim(row: Option<CurrentClaim>) -> Option<Claim> {
    match row {
        Some(r) => Some(r@),
        None => None,
    }
}

/// Whether `a` stands over `b`.
pub open spec fn beats(a: Claim, b: Claim) -> bool {
    a.created_at > b.created_at || (a.created_at == b.created_at && bytes::lex_less(
        a.hash,
        b.hash,
    ))
}

/// Whether a new claim stands over the one so far.
pub open spec fn wins(new: Claim, current: Option<Claim>) -> bool {
    match current {
        None => true,
        Some(c) => beats(new, c),
    }
}

/// The claim that stands after `arrivals` came in one after the other.
pub open spec fn settle(current: Option<Claim>, arrivals: Seq<Claim>) -> Option<Claim>
    decreases arrivals.len(),
{
    if arrivals.len() == 0 {
        current
    } else {
        let before = settle(current, arrivals.drop_last());
        if wins(arrivals.last(), before) {
            Some(arrivals.last())
        } else {
            before
        }
    }
}

/// Of two distinct claims exactly one stands over the other, and none stands
/// over itself.
pub proof fn law_beats_is_a_strict_order(a: Claim, b: Claim, c: Claim)
    ensures
        !beats(a, a),
        beats(a, b) ==> !beats(b, a),
        a == b || beats(a, b) || beats(b, a),
        beats(a, b) && beats(b, c) ==> beats(a, c),
{
    bytes::lemma_lex_irreflexive(a.hash);
    bytes::lemma_lex_total(a.hash, b.hash);
    if bytes::lex_less(a.hash, b.hash) && bytes::lex_less(b.hash, a.hash) {
        bytes::lemma_lex_transitive(a.hash, b.hash, a.hash);
    }
    if bytes::lex_less(a.hash, b.hash) && bytes::lex_less(b.hash, c.hash) {
        bytes::lemma_lex_transitive(a.hash, b.hash, c.hash);
    }
}

/// The claim that stands is one of those that arrived, and stands over every
/// other one of them.
pub proof fn law_settled_claim_beats_the_rest(arrivals: Seq<Claim>)
    requires
        arrivals.len() > 0,
    ensures
        settle(None, arrivals) matches Some(w) && arrivals.contains(w) && forall|x: Claim|
            #[trigger] arrivals.contains(x) ==> x == w || beats(w, x),
    decreases arrivals.len(),
{
    let last = arrivals.last();
    let front = arrivals.drop_last();
    assert(arrivals =~= front.push(last));
    assert(arrivals[arrivals.len() - 1] == last);
    if front.len() == 0 {
        assert forall|x: Claim| #[trigger] arrivals.contains(x) implies x == last by {
            let i = choose|i: int| 0 <= i < arrivals.len() && arrivals[i] == x;
            assert(i == 0);
        }
    } else {
        law_settled_claim_beats_the_rest(front);
        let was = settle(None, front)->Some_0;
        let now = settle(None, arrivals)->Some_0;
        law_beats_is_a_strict_order(last, was, was);
        let p = choose|p: int| 0 <= p < front.len() && front[p] == was;
        assert(arrivals[p] == was);
        assert forall|x: Claim| #[trigger] arrivals.contains(x) implies x == now || beats(
            now,
            x,
        ) by {
            let i = choose|i: int| 0 <= i < arrivals.len() && arrivals[i] == x;
            if i < front.len() {
                assert(front[i] == x);
                assert(front.contains(x));
                law_beats_is_a_strict_order(last, was, x);
            }
        }
    }
}

proof fn lemma_start_is_an_arrival(first: Claim, arrivals: Seq<Claim>)
    ensures
        settle(Some(first), arrivals) == settle(None, seq![first] + arrivals),
    decreases arrivals.len(),
{
    let all = seq![first] + arrivals;
    if arrivals.len() == 0 {
        assert(all.drop_last() =~= Seq::<Claim>::empty());
        assert(settle(None, all.drop_last()) is None);
    } else {
        lemma_start_is_an_arrival(first, arrivals.drop_last());
        assert(all.drop_last() =~= seq![first] + arrivals.drop_last());
        assert(all.last() == arrivals.last());
    }
}

proof fn lemma_order_does_not_matter(a: Seq<Claim>, b: Seq<Claim>)
    requires
        forall|x: Claim| a.contains(x) <==> b.contains(x),
    ensures
        settle(None, a) == settle(None, b),
{
    if a.len() == 0 {
        if b.len() > 0 {
            assert(b.contains(b[0]));
            assert(a.contains(b[0]));
        }
    } else if b.len() == 0 {
        assert(a.contains(a[0]));
        assert(b.contains(a[0]));
    } else {
        law_settled_claim_beats_the_rest(a);
        law_settled_claim_beats_the_rest(b);
        let x = settle(None, a)->Some_0;
        let y = settle(None, b)->Some_0;
        assert(b.contains(x));
        assert(a.contains(y));
        law_beats_is_a_strict_order(x, y, x);
    }
}

/// Instances that start from the same claim, or from none, and receive the
/// same claims, in whatever order and however often, end with the same claim.
pub proof fn law_arrival_order_does_not_matter(
    current: Option<Claim>,
    a: Seq<Claim>,
    b: Seq<Claim>,
)
    requires
        forall|x: Claim| a.contains(x) <==> b.contains(x),
    ensures
        settle(current, a) == settle(current, b),
{
    match current {
        None => {
            lemma_order_does_not_matter(a, b);
        },
        Some(c) => {
            lemma_start_is_an_arrival(c, a);
            lemma_start_is_an_arrival(c, b);
            let from_a = seq![c] + a;
            let from_b = seq![c] + b;
            assert forall|x: Claim| from_a.contains(x) <==> from_b.contains(x) by {
                lemma_joined_contains(c, a, x);
                lemma_joined_contains(c, b, x);
            }
            lemma_order_does_not_matter(from_a, from_b);
        },
    }
}

proof fn lemma_joined_contains(first: Claim, rest: Seq<Claim>, x: Claim)
    ensures
        (seq![first] + rest).contains(x) <==> x == first || rest.contains(x),
{
    let all = seq![first] + rest;
    assert(all[0] == first);
    if rest.contains(x) {
        let i = choose|i: int| 0 <= i < rest.len() && rest[i] == x;
        assert(all[i + 1] == x);
    }
    if all.contains(x) {
        let i = choose|i: int| 0 <= i < all.len() && all[i] == x;
        if i > 0 {
            assert(rest[i - 1] == x);
        }
    }
}

/// Whether the claim of `created_at` with `hash` stands over the stored one.
pub fn new_wins(created_at: u64, hash: &[u8; 32], current: &Option<CurrentClaim>) -> (wins: bool)
    ensures
        wins == self::wins(Claim { created_at, hash: hash@ }, stored_claim(*current)),
{
    match current {
        None => true,
        Some(row) => {
            let prior: u64 = if row.created_at < 0 {
                0
            } else {
                row.created_at as u64
            };
            if created_at > prior {
                true
            } else if created_at < prior {
                false
            } else {
                bytes_less(hash.as_slice(), row.hash.as_slice())
            }
        },
    }
}

/// The later claim stands, and of two with one timestamp the one with the
/// smaller hash. The first claim about a subject stands.
pub proof fn law_the_later_claim_stands(
    created_at: u64,
    hash: &[u8; 32],
    current: &Option<CurrentClaim>,
    stands: bool,
)
    requires
        call_ensures(new_wins, (created_at, hash, current), stands),
    ensures
        current is None ==> stands,
        *current matches Some(c) ==> {
            &&& c.created_at < created_at && created_at > 0 ==> stands
            &&& c.created_at > created_at ==> !stands
            &&& c.created_at == created_at ==> stands == bytes::lex_less(hash@, c.hash@)
        },
{
}

} // verus!
