//! Users of other instances: the stub rows that stand for them, where they
//! are at home, and their trust edges.

use vstd::prelude::*;

use crate::bytes;
use crate::bytes::{bytes_less, key_from_slice, same_bytes, same_key};
use crate::crypto;
use crate::federation::signed::{Parsed, SignedPayload, TrustEdge, TrustStance};
use crate::text;
use crate::text::{push_char, push_hex, same_text};
use crate::timestamp;
use crate::timestamp::utc_now;

verus! {

// ---------------------------------------------------------------------------
// Display names
// ---------------------------------------------------------------------------

/// Whether a character of a remote display name is shown: neither a control
/// character nor one of the invisible and direction-changing ones.
pub open spec fn is_shown(c: char) -> bool {
    let n = c as u32;
    &&& !text::is_control(c)
    &&& !(0x200b <= n <= 0x200f)
    &&& !(0x202a <= n <= 0x202e)
    &&& !(0x2060 <= n <= 0x2064)
    &&& !(0x2066 <= n <= 0x2069)
    &&& n != 0xfeff
}

/// The characters of a name that are shown.
pub open spec fn shown(name: Seq<char>) -> Seq<char>
    decreases name.len(),
{
    if name.len() == 0 {
        Seq::empty()
    } else if is_shown(name.last()) {
        shown(name.drop_last()).push(name.last())
    } else {
        shown(name.drop_last())
    }
}

/// The name under which a remote user is shown: what of the raw one is shown,
/// and the start of the user's key where that is nothing.
pub open spec fn safe_name(raw: Seq<char>, public_key: Seq<u8>) -> Seq<char> {
    if shown(raw).len() == 0 {
        text::hex(public_key.take(4))
    } else {
        shown(raw)
    }
}

fn char_is_shown(c: char) -> (yes: bool)
    ensures
        yes == is_shown(c),
{
    let n: u32 = c as u32;
    !c.is_control() && !(0x200b <= n && n <= 0x200f) && !(0x202a <= n && n <= 0x202e) && !(0x2060
        <= n && n <= 0x2064) && !(0x2066 <= n && n <= 0x2069) && n != 0xfeff
}

/// The display name of a remote user with everything taken out that is not
/// shown, and the start of the user's key where nothing is left.
pub fn sanitize_remote_display_name(raw: &str, public_key: &[u8; 32]) -> (name: String)
    ensures
        name@ == safe_name(raw@, public_key@),
{
    let mut cleaned: String = String::new();
    assert(raw@.take(0) =~= Seq::<char>::empty());
    for c in it: raw.chars()
        invariant
            it.seq() == raw@,
            cleaned@ == shown(raw@.take(it.index() as int)),
    {
        let ghost i = it.index() as int;
        assert(raw@.take(i + 1).drop_last() =~= raw@.take(i));
        assert(raw@.take(i + 1).last() == raw@[i]);
        if char_is_shown(c) {
            push_char(&mut cleaned, c);
        }
    }
    assert(raw@.take(raw@.len() as int) =~= raw@);
    if cleaned.as_str().is_empty() {
        let mut out: String = String::new();
        push_hex(&mut out, vstd::slice::slice_subrange(public_key.as_slice(), 0, 4));
        assert(public_key@.subrange(0, 4) =~= public_key@.take(4));
        assert(out@ =~= text::hex(public_key@.take(4)));
        out
    } else {
        cleaned
    }
}

proof fn lemma_shown_is_shown(name: Seq<char>)
    ensures
        forall|i: int| 0 <= i < shown(name).len() ==> is_shown(#[trigger] shown(name)[i]),
    decreases name.len(),
{
    if name.len() > 0 {
        let before = shown(name.drop_last());
        lemma_shown_is_shown(name.drop_last());
        assert forall|i: int| 0 <= i < shown(name).len() implies is_shown(
            #[trigger] shown(name)[i],
        ) by {
            if i < before.len() {
                assert(shown(name)[i] == before[i]);
            }
        }
    }
}

/// Whatever a remote user calls themselves, the name under which they are
/// shown is not empty and holds nothing invisible.
pub proof fn law_safe_name_is_shown(raw: Seq<char>, public_key: Seq<u8>)
    requires
        public_key.len() == 32,
    ensures
        safe_name(raw, public_key).len() > 0,
        forall|i: int|
            0 <= i < safe_name(raw, public_key).len() ==> is_shown(
                #[trigger] safe_name(raw, public_key)[i],
            ),
{
    lemma_shown_is_shown(raw);
}

// ---------------------------------------------------------------------------
// Stub rows
// ---------------------------------------------------------------------------

/// What to do with the row of a remote author.
#[derive(Clone, Copy, Debug, PartialEq, Eq)]
pub enum StubAction {
    /// There is no row: insert one.
    Insert,
    /// The row is a stub: bring its name and home up to date.
    Refresh,
    /// The row belongs to a local account: leave it as it is.
    Leave,
}

fn stub_action(signup_method: &str) -> (action: StubAction)
    ensures
        action == (if signup_method@ == "federated"@ {
            StubAction::Refresh
        } else {
            StubAction::Leave
        }),
{
    if same_text(signup_method, "federated") {
        StubAction::Refresh
    } else {
        StubAction::Leave
    }
}

/// The row of a remote author as it is.
#[derive(Debug)]
pub struct KnownUser {
    pub id: String,
    pub signup_method: String,
}

/// A stub row to write, and what to do with it.
#[derive(Debug)]
pub struct StubRow {
    pub action: StubAction,
    /// The identifier of the user's row.
    pub id: String,
    pub public_key: [u8; 32],
    /// The name under which the user is shown.
    pub display_name: String,
    pub home_instance: [u8; 32],
}

/// Hydrates the row of a remote author: a new one gets the identifier
/// `new_id`, and one that is there keeps its own.
pub fn hydrate_stub_user(
    public_key: &[u8; 32],
    display_name: &str,
    home_instance: &[u8; 32],
    existing: &Option<KnownUser>,
    new_id: &str,
) -> (stub: StubRow)
    ensures
        stub.public_key == *public_key,
        stub.display_name@ == safe_name(display_name@, public_key@),
        stub.home_instance == *home_instance,
        match *existing {
            None => stub.action == StubAction::Insert && stub.id@ == new_id@,
            Some(known) => stub.id@ == known.id@ && stub.action == (if known.signup_method@
                == "federated"@ {
                StubAction::Refresh
            } else {
                StubAction::Leave
            }),
        },
{
    let (action, id): (StubAction, String) = match existing {
        None => (StubAction::Insert, new_id.to_string()),
        Some(known) => (stub_action(known.signup_method.as_str()), known.id.clone()),
    };
    StubRow {
        action,
        id,
        public_key: *public_key,
        display_name: sanitize_remote_display_name(display_name, public_key),
        home_instance: *home_instance,
    }
}

// ---------------------------------------------------------------------------
// Homes
// ---------------------------------------------------------------------------

/// The home of a user now: the one on record, where it has the form of a
/// key, and otherwise the instance that the user's object came from.
pub fn resolve_current_home(recorded: &Option<Vec<u8>>, arrived_from: &[u8; 32]) -> (home: [u8; 32])
    ensures
        home@ == (match *recorded {
            Some(key) => if key@.len() == 32 {
                key@
            } else {
                arrived_from@
            },
            None => arrived_from@,
        }),
{
    match recorded {
        Some(key) => match key_from_slice(key.as_slice()) {
            Some(home) => home,
            None => *arrived_from,
        },
        None => *arrived_from,
    }
}

/// The two ends of a move.
#[derive(Clone, Copy, Debug, PartialEq, Eq)]
pub struct MoveEnds {
    pub from_instance_key: [u8; 32],
    pub to_instance_key: [u8; 32],
}

/// A move of a user's chain, as it is stored. Its ends are missing where its
/// bytes cannot be read any more.
#[derive(Debug)]
pub struct MoveRecord {
    pub created_at: i64,
    pub canonical_hash: Vec<u8>,
    pub ends: Option<MoveEnds>,
}

/// The ends of a stored move, where its payload is still there, is the one
/// that its hash names and parses as a move.
pub fn stored_move_ends(
    canonical_hash: &[u8],
    payload: &Option<Vec<u8>>,
    parsed: &Parsed,
) -> (ends: Option<MoveEnds>)
    ensures
        match (*payload, *parsed) {
            (Some(p), Ok(SignedPayload::Move(m))) => if crypto::sha256_digest(p@)
                == canonical_hash@ {
                ends == Some(
                    MoveEnds {
                        from_instance_key: m.from_instance_key,
                        to_instance_key: m.to_instance_key,
                    },
                )
            } else {
                ends is None
            },
            _ => ends is None,
        },
{
    match (payload, parsed) {
        (Some(p), Ok(SignedPayload::Move(m))) => {
            let computed: [u8; 32] = crypto::sha256(p.as_slice());
            if same_bytes(computed.as_slice(), canonical_hash) {
                Some(
                    MoveEnds {
                        from_instance_key: m.from_instance_key,
                        to_instance_key: m.to_instance_key,
                    },
                )
            } else {
                None
            }
        },
        _ => None,
    }
}

/// The latest point in time that a stored timestamp can compare with.
pub open spec fn stored_time(t: u64) -> i64 {
    if t <= i64::MAX {
        t as i64
    } else {
        i64::MAX
    }
}

/// Whether the move at `i` is the last one of the chain up to `t`: no other
/// one up to `t` is later, nor as late with a smaller hash.
pub open spec fn is_last_until(chain: Seq<MoveRecord>, i: int, t: i64) -> bool {
    &&& 0 <= i < chain.len()
    &&& chain[i].created_at <= t
    &&& forall|j: int|
        #![trigger chain[j]]
        0 <= j < chain.len() && chain[j].created_at <= t ==> chain[j].created_at
            <= chain[i].created_at && (chain[j].created_at == chain[i].created_at
            ==> !bytes::lex_less(chain[j].canonical_hash@, chain[i].canonical_hash@))
}

/// Whether the move at `i` is the first one of the chain: no other one is
/// earlier, nor as early with a smaller hash.
pub open spec fn is_first(chain: Seq<MoveRecord>, i: int) -> bool {
    &&& 0 <= i < chain.len()
    &&& forall|j: int|
        #![trigger chain[j]]
        0 <= j < chain.len() ==> chain[i].created_at <= chain[j].created_at && (
        chain[j].created_at == chain[i].created_at ==> !bytes::lex_less(
            chain[j].canonical_hash@,
            chain[i].canonical_hash@,
        ))
}

fn last_until(chain: &Vec<MoveRecord>, t: i64) -> (place: Option<usize>)
    ensures
        match place {
            Some(i) => is_last_until(chain@, i as int, t),
            None => forall|j: int|
                #![trigger chain@[j]]
                0 <= j < chain@.len() ==> chain@[j].created_at > t,
        },
{
    let mut best: Option<usize> = None;
    let mut i: usize = 0;
    while i < chain.len()
        invariant
            i <= chain.len(),
            match best {
                Some(b) => b < i && is_last_until(chain@.take(i as int), b as int, t),
                None => forall|j: int|
                    #![trigger chain@[j]]
                    0 <= j < i ==> chain@[j].created_at > t,
            },
        decreases chain.len() - i,
    {
        let ghost before = chain@.take(i as int);
        let ghost after = chain@.take(i + 1);
        assert forall|j: int| 0 <= j < i implies before[j] == #[trigger] after[j] && before[j]
            == chain@[j] by {}
        assert(after[i as int] == chain@[i as int]);
        if chain[i].created_at <= t {
            match best {
                None => {
                    proof {
                        bytes::lemma_lex_irreflexive(chain@[i as int].canonical_hash@);
                        assert forall|j: int|
                            #![trigger after[j]]
                            0 <= j < after.len() && after[j].created_at <= t implies j == i by {
                            if j < i {
                                assert(chain@[j].created_at > t);
                            }
                        }
                    }
                    best = Some(i);
                },
                Some(b) => {
                    let later: bool = chain[i].created_at > chain[b].created_at || (
                    chain[i].created_at == chain[b].created_at && bytes_less(
                        chain[i].canonical_hash.as_slice(),
                        chain[b].canonical_hash.as_slice(),
                    ));
                    proof {
                        bytes::lemma_lex_irreflexive(chain@[i as int].canonical_hash@);
                        assert(before[b as int] == chain@[b as int]);
                        assert(after[b as int] == chain@[b as int]);
                        assert forall|j: int|
                            #![trigger after[j]]
                            0 <= j < after.len() && after[j].created_at <= t && later implies
                            after[j].created_at <= chain@[i as int].created_at && (
                        after[j].created_at == chain@[i as int].created_at ==> !bytes::lex_less(
                            after[j].canonical_hash@,
                            chain@[i as int].canonical_hash@,
                        )) by {
                            if j < i {
                                assert(before[j].created_at <= t);
                                if bytes::lex_less(
                                    after[j].canonical_hash@,
                                    chain@[i as int].canonical_hash@,
                                ) && bytes::lex_less(
                                    chain@[i as int].canonical_hash@,
                                    chain@[b as int].canonical_hash@,
                                ) {
                                    bytes::lemma_lex_transitive(
                                        after[j].canonical_hash@,
                                        chain@[i as int].canonical_hash@,
                                        chain@[b as int].canonical_hash@,
                                    );
                                }
                            }
                        }
                        assert forall|j: int|
                            #![trigger after[j]]
                            0 <= j < after.len() && after[j].created_at <= t && !later implies
                            after[j].created_at <= chain@[b as int].created_at && (
                        after[j].created_at == chain@[b as int].created_at ==> !bytes::lex_less(
                            after[j].canonical_hash@,
                            chain@[b as int].canonical_hash@,
                        )) by {
                            if j < i {
                                assert(before[j].created_at <= t);
                            }
                        }
                    }
                    if later {
                        best = Some(i);
                    }
                },
            }
        } else {
            proof {
                if let Some(b) = best {
                    assert(before[b as int] == chain@[b as int]);
                    assert(after[b as int] == chain@[b as int]);
                    assert forall|j: int|
                        #![trigger after[j]]
                        0 <= j < after.len() && after[j].created_at <= t implies
                        after[j].created_at <= chain@[b as int].created_at && (
                    after[j].created_at == chain@[b as int].created_at ==> !bytes::lex_less(
                        after[j].canonical_hash@,
                        chain@[b as int].canonical_hash@,
                    )) by {
                        assert(j < i);
                        assert(before[j].created_at <= t);
                    }
                }
            }
        }
        i += 1;
    }
    assert(chain@.take(i as int) =~= chain@);
    best
}

fn first_move(chain: &Vec<MoveRecord>) -> (place: Option<usize>)
    ensures
        match place {
            Some(i) => is_first(chain@, i as int),
            None => chain@.len() == 0,
        },
{
    if chain.len() == 0 {
        return None;
    }
    let mut best: usize = 0;
    let mut i: usize = 1;
    proof {
        bytes::lemma_lex_irreflexive(chain@[0].canonical_hash@);
    }
    while i < chain.len()
        invariant
            0 <= best < i <= chain.len(),
            forall|j: int|
                #![trigger chain@[j]]
                0 <= j < i ==> chain@[best as int].created_at <= chain@[j].created_at && (
                chain@[j].created_at == chain@[best as int].created_at ==> !bytes::lex_less(
                    chain@[j].canonical_hash@,
                    chain@[best as int].canonical_hash@,
                )),
        decreases chain.len() - i,
    {
        let earlier: bool = chain[i].created_at < chain[best].created_at || (chain[i].created_at
            == chain[best].created_at && bytes_less(
            chain[i].canonical_hash.as_slice(),
            chain[best].canonical_hash.as_slice(),
        ));
        if earlier {
            proof {
                bytes::lemma_lex_irreflexive(chain@[i as int].canonical_hash@);
                assert forall|j: int| #![trigger chain@[j]] 0 <= j < i + 1 implies
                    chain@[i as int].created_at <= chain@[j].created_at && (chain@[j].created_at
                    == chain@[i as int].created_at ==> !bytes::lex_less(
                    chain@[j].canonical_hash@,
                    chain@[i as int].canonical_hash@,
                )) by {
                    if j < i && bytes::lex_less(
                        chain@[j].canonical_hash@,
                        chain@[i as int].canonical_hash@,
                    ) && bytes::lex_less(
                        chain@[i as int].canonical_hash@,
                        chain@[best as int].canonical_hash@,
                    ) {
                        bytes::lemma_lex_transitive(
                            chain@[j].canonical_hash@,
                            chain@[i as int].canonical_hash@,
                            chain@[best as int].canonical_hash@,
                        );
                    }
                }
            }
            best = i;
        }
        i += 1;
    }
    Some(best)
}

/// Whether `home` is where a user with this chain of moves lived at `t`: the
/// end of the last move until then; the start of the first one where all of
/// them came later; and `fallback` where there is none, or its ends cannot be
/// read.
pub open spec fn is_home_at(
    chain: Seq<MoveRecord>,
    t: u64,
    fallback: Seq<u8>,
    home: Seq<u8>,
) -> bool {
    if exists|j: int| 0 <= j < chain.len() && (#[trigger] chain[j]).created_at <= stored_time(t) {
        exists|i: int|
            #[trigger] is_last_until(chain, i, stored_time(t)) && home == (match chain[i].ends {
                Some(ends) => ends.to_instance_key@,
                None => fallback,
            })
    } else if chain.len() > 0 {
        exists|i: int|
            #[trigger] is_first(chain, i) && home == (match chain[i].ends {
                Some(ends) => ends.from_instance_key@,
                None => fallback,
            })
    } else {
        home == fallback
    }
}

/// Where a user with this chain of moves lived at `t`.
pub fn resolve_home_at_t(
    chain: &Vec<MoveRecord>,
    t: u64,
    arrived_from: &[u8; 32],
) -> (home: [u8; 32])
    ensures
        is_home_at(chain@, t, arrived_from@, home@),
{
    let until: i64 = if t <= i64::MAX as u64 {
        t as i64
    } else {
        i64::MAX
    };
    match last_until(chain, until) {
        Some(i) => {
            assert(chain@[i as int].created_at <= stored_time(t));
            assert(is_last_until(chain@, i as int, stored_time(t)));
            match chain[i].ends {
                Some(ends) => ends.to_instance_key,
                None => *arrived_from,
            }
        },
        None => match first_move(chain) {
            Some(i) => {
                assert(is_first(chain@, i as int));
                match chain[i].ends {
                    Some(ends) => ends.from_instance_key,
                    None => *arrived_from,
                }
            },
            None => *arrived_from,
        },
    }
}

/// Where a chain holds no two moves of one hash, where a user lived at a
/// given time is fixed by the chain, whatever the order of its rows.
pub proof fn law_home_at_is_fixed_by_the_chain(
    chain: Seq<MoveRecord>,
    t: u64,
    fallback: Seq<u8>,
    a: Seq<u8>,
    b: Seq<u8>,
)
    requires
        forall|i: int, j: int|
            #![trigger chain[i], chain[j]]
            0 <= i < j < chain.len() ==> chain[i].canonical_hash@ != chain[j].canonical_hash@,
        is_home_at(chain, t, fallback, a),
        is_home_at(chain, t, fallback, b),
    ensures
        a == b,
{
    let u = stored_time(t);
    if exists|j: int| 0 <= j < chain.len() && (#[trigger] chain[j]).created_at <= u {
        let i = choose|i: int|
            #[trigger] is_last_until(chain, i, u) && a == (match chain[i].ends {
                Some(ends) => ends.to_instance_key@,
                None => fallback,
            });
        let j = choose|j: int|
            #[trigger] is_last_until(chain, j, u) && b == (match chain[j].ends {
                Some(ends) => ends.to_instance_key@,
                None => fallback,
            });
        assert(chain[i].created_at == chain[j].created_at);
        bytes::lemma_lex_total(chain[i].canonical_hash@, chain[j].canonical_hash@);
        assert(i == j);
    } else if chain.len() > 0 {
        let i = choose|i: int|
            #[trigger] is_first(chain, i) && a == (match chain[i].ends {
                Some(ends) => ends.from_instance_key@,
                None => fallback,
            });
        let j = choose|j: int|
            #[trigger] is_first(chain, j) && b == (match chain[j].ends {
                Some(ends) => ends.from_instance_key@,
                None => fallback,
            });
        assert(chain[i].created_at == chain[j].created_at);
        bytes::lemma_lex_total(chain[i].canonical_hash@, chain[j].canonical_hash@);
        assert(i == j);
    }
}

// ---------------------------------------------------------------------------
// Trust edges
// ---------------------------------------------------------------------------

/// What became of the attempt to project a trust edge.
#[derive(Clone, Copy, Debug, PartialEq, Eq)]
pub enum TrustEdgeProjection {
    /// The edge is in the table.
    Projected,
    /// One of its users has no row.
    EndpointMissing,
    /// Another edge of the pair follows the same edge.
    ChainFork,
    /// The edge that it follows is not in the table.
    Deferred,
}

/// A trust edge as far as the chains of edges go.
#[derive(Clone, Copy, Debug, PartialEq, Eq)]
pub struct EdgeLink {
    pub from_key: [u8; 32],
    pub to_key: [u8; 32],
    pub prior_edge_hash: Option<[u8; 32]>,
    pub canonical_hash: [u8; 32],
}

/// What an [`EdgeLink`] holds.
pub struct EdgeView {
    pub from: Seq<u8>,
    pub to: Seq<u8>,
    pub prior: Option<Seq<u8>>,
    pub hash: Seq<u8>,
}

impl EdgeLink {
    /// What the link holds.
    pub open spec fn view(&self) -> EdgeView {
        EdgeView {
            from: self.from_key@,
            to: self.to_key@,
            prior: match self.prior_edge_hash {
                Some(h) => Some(h@),
                None => None,
            },
            hash: self.canonical_hash@,
        }
    }
}

/// What a list of links holds.
pub open spec fn edges_view(edges: Seq<EdgeLink>) -> Seq<EdgeView> {
    Seq::new(edges.len(), |i: int| edges[i]@)
}

/// Whether one of `keys` is `key`.
pub open spec fn has_key(keys: Seq<[u8; 32]>, key: Seq<u8>) -> bool {
    exists|i: int| 0 <= i < keys.len() && (#[trigger] keys[i])@ == key
}

/// Whether an edge with the hash of `e` is in the table.
pub open spec fn is_projected(rows: Seq<EdgeView>, e: EdgeView) -> bool {
    exists|i: int| 0 <= i < rows.len() && (#[trigger] rows[i]).hash == e.hash
}

/// Whether an edge of the pair of `e` follows the same edge as `e`.
pub open spec fn is_forked(rows: Seq<EdgeView>, e: EdgeView) -> bool {
    exists|i: int|
        0 <= i < rows.len() && (#[trigger] rows[i]).from == e.from && rows[i].to == e.to
            && rows[i].prior == e.prior && rows[i].hash != e.hash
}

/// Whether the edge that `e` follows, if it follows one, is in the table.
pub open spec fn is_grounded(rows: Seq<EdgeView>, e: EdgeView) -> bool {
    e.prior is None || exists|i: int|
        0 <= i < rows.len() && (#[trigger] rows[i]).from == e.from && rows[i].to == e.to && Some(
            rows[i].hash,
        ) == e.prior
}

/// What becomes of projecting `e` into a table of `rows` where `users` have
/// rows of their own.
pub open spec fn projection(
    users: Seq<[u8; 32]>,
    rows: Seq<EdgeView>,
    e: EdgeView,
) -> TrustEdgeProjection {
    if !has_key(users, e.from) || !has_key(users, e.to) {
        TrustEdgeProjection::EndpointMissing
    } else if is_projected(rows, e) {
        TrustEdgeProjection::Projected
    } else if is_forked(rows, e) {
        TrustEdgeProjection::ChainFork
    } else if !is_grounded(rows, e) {
        TrustEdgeProjection::Deferred
    } else {
        TrustEdgeProjection::Projected
    }
}

/// The table after the attempt to project `e`.
pub open spec fn rows_after(users: Seq<[u8; 32]>, rows: Seq<EdgeView>, e: EdgeView) -> Seq<
    EdgeView,
> {
    if projection(users, rows, e) is Projected && !is_projected(rows, e) {
        rows.push(e)
    } else {
        rows
    }
}

fn holds_key(keys: &Vec<[u8; 32]>, key: &[u8; 32]) -> (found: bool)
    ensures
        found == has_key(keys@, key@),
{
    let mut i: usize = 0;
    while i < keys.len()
        invariant
            i <= keys.len(),
            forall|j: int| 0 <= j < i ==> (#[trigger] keys@[j])@ != key@,
        decreases keys.len() - i,
    {
        if same_key(&keys[i], key) {
            return true;
        }
        i += 1;
    }
    false
}

fn same_link(a: &Option<[u8; 32]>, b: &Option<[u8; 32]>) -> (same: bool)
    ensures
        same == ((match *a {
            Some(h) => Some(h@),
            None => None,
        }) == (match *b {
            Some(h) => Some(h@),
            None => None,
        })),
{
    match (a, b) {
        (Some(x), Some(y)) => same_key(x, y),
        (None, None) => true,
        _ => false,
    }
}

/// Decides what becomes of projecting `edge` into a table of `rows`, the
/// edges that are projected so far, where `users` are the keys that have rows
/// of their own.
pub fn try_project_trust_edge(
    users: &Vec<[u8; 32]>,
    rows: &Vec<EdgeLink>,
    edge: &EdgeLink,
) -> (outcome: (TrustEdgeProjection, bool))
    ensures
        outcome.0 == projection(users@, edges_view(rows@), edge@),
        outcome.1 == (outcome.0 is Projected && !is_projected(edges_view(rows@), edge@)),
{
    let ghost table = edges_view(rows@);
    let known: bool = holds_key(users, &edge.from_key) && holds_key(users, &edge.to_key);
    let mut projected: bool = false;
    let mut forked: bool = false;
    let mut grounded: bool = edge.prior_edge_hash.is_none();
    let mut i: usize = 0;
    while i < rows.len()
        invariant
            i <= rows.len(),
            table == edges_view(rows@),
            projected == is_projected(table.take(i as int), edge@),
            forked == is_forked(table.take(i as int), edge@),
            grounded == is_grounded(table.take(i as int), edge@),
        decreases rows.len() - i,
    {
        let ghost before = table.take(i as int);
        let ghost after = table.take(i + 1);
        let row: EdgeLink = rows[i];
        let pair: bool = same_key(&row.from_key, &edge.from_key) && same_key(
            &row.to_key,
            &edge.to_key,
        );
        let this_hash: bool = same_key(&row.canonical_hash, &edge.canonical_hash);
        let this_prior: bool = same_link(&row.prior_edge_hash, &edge.prior_edge_hash);
        let is_prior: bool = same_link(&Some(row.canonical_hash), &edge.prior_edge_hash);
        proof {
            assert(after[i as int] == row@);
            assert forall|j: int| 0 <= j < i implies before[j] == #[trigger] after[j] by {}
            if is_projected(before, edge@) {
                let j = choose|j: int|
                    0 <= j < before.len() && (#[trigger] before[j]).hash == edge@.hash;
                assert(after[j].hash == edge@.hash);
            }
            if is_forked(before, edge@) {
                let j = choose|j: int|
                    0 <= j < before.len() && (#[trigger] before[j]).from == edge@.from
                        && before[j].to == edge@.to && before[j].prior == edge@.prior
                        && before[j].hash != edge@.hash;
                assert(after[j].from == edge@.from);
            }
            if is_grounded(before, edge@) && edge@.prior is Some {
                let j = choose|j: int|
                    0 <= j < before.len() && (#[trigger] before[j]).from == edge@.from
                        && before[j].to == edge@.to && Some(before[j].hash) == edge@.prior;
                assert(after[j].from == edge@.from);
            }
            if is_projected(after, edge@) && !this_hash {
                let j = choose|j: int|
                    0 <= j < after.len() && (#[trigger] after[j]).hash == edge@.hash;
                assert(before[j].hash == edge@.hash);
            }
            if is_forked(after, edge@) && !(pair && this_prior && !this_hash) {
                let j = choose|j: int|
                    0 <= j < after.len() && (#[trigger] after[j]).from == edge@.from
                        && after[j].to == edge@.to && after[j].prior == edge@.prior
                        && after[j].hash != edge@.hash;
                assert(before[j].from == edge@.from);
            }
            if is_grounded(after, edge@) && edge@.prior is Some && !(pair && is_prior) {
                let j = choose|j: int|
                    0 <= j < after.len() && (#[trigger] after[j]).from == edge@.from
                        && after[j].to == edge@.to && Some(after[j].hash) == edge@.prior;
                assert(before[j].from == edge@.from);
            }
        }
        if this_hash {
            projected = true;
        }
        if pair && this_prior && !this_hash {
            forked = true;
        }
        if pair && is_prior {
            grounded = true;
        }
        i += 1;
    }
    assert(table.take(i as int) =~= table);
    if !known {
        (TrustEdgeProjection::EndpointMissing, false)
    } else if projected {
        (TrustEdgeProjection::Projected, false)
    } else if forked {
        (TrustEdgeProjection::ChainFork, false)
    } else if !grounded {
        (TrustEdgeProjection::Deferred, false)
    } else {
        (TrustEdgeProjection::Projected, true)
    }
}

/// Whether projecting an edge for the first time ends every earlier edge of
/// its pair.
pub fn erases_chain(edge: &TrustEdge) -> (erases: bool)
    ensures
        erases == (edge.stance is Neutral),
{
    matches!(edge.stance, TrustStance::Neutral)
}

/// The text of the stored timestamp of an edge: its own, where it can be
/// written, and otherwise the second `now`.
pub open spec fn edge_time(created_at: u64, now: i64) -> Option<Seq<char>> {
    let own = timestamp::text_of_millis(created_at as int, timestamp::ISO_SECONDS@);
    if created_at <= i64::MAX && own is Some {
        own
    } else {
        timestamp::text_of_millis(now * 1000, timestamp::ISO_SECONDS@)
    }
}

/// The stored timestamp of an edge: its own, where it can be written, and
/// otherwise the present.
pub fn edge_stamp(created_at: u64) -> (text: String)
    ensures
        exists|now: i64|
            0 <= now <= timestamp::LAST_SECOND && #[trigger] edge_time(created_at, now) == Some(
                text@,
            ),
{
    let now: (i64, u32) = utc_now();
    edge_stamp_at(created_at, now.0)
}

/// The stored timestamp of an edge that comes in the second `now`.
pub fn edge_stamp_at(created_at: u64, now: i64) -> (text: String)
    requires
        0 <= now <= timestamp::LAST_SECOND,
    ensures
        edge_time(created_at, now) == Some(text@),
{
    if created_at <= i64::MAX as u64 {
        if let Some(text) = timestamp::iso_of_millis(created_at as i64) {
            return text;
        }
    }
    timestamp::iso_of_second(now)
}

/// Whether an edge is of interest to the sweep for `user_key`: the user is
/// one of its ends.
pub open spec fn concerns(e: EdgeView, user_key: Seq<u8>) -> bool {
    e.from == user_key || e.to == user_key
}

/// The pending edge that a stored object is for the sweep of `user_key`: it
/// parses as a trust edge that concerns the user, and its hash is one.
pub fn pending_candidate(
    canonical_hash: &[u8],
    parsed: &Parsed,
    user_key: &[u8; 32],
) -> (candidate: Option<EdgeLink>)
    ensures
        match *parsed {
            Ok(SignedPayload::TrustEdge(edge)) => if (edge.from_key@ == user_key@ || edge.to_key@
                == user_key@) && canonical_hash@.len() == 32 {
                candidate matches Some(c) && c.from_key == edge.from_key && c.to_key == edge.to_key
                    && c.prior_edge_hash == edge.prior_edge_hash && c.canonical_hash@
                    == canonical_hash@ && concerns(c@, user_key@)
            } else {
                candidate is None
            },
            _ => candidate is None,
        },
{
    match parsed {
        Ok(SignedPayload::TrustEdge(edge)) => {
            if !same_key(&edge.from_key, user_key) && !same_key(&edge.to_key, user_key) {
                return None;
            }
            match key_from_slice(canonical_hash) {
                Some(hash) => Some(
                    EdgeLink {
                        from_key: edge.from_key,
                        to_key: edge.to_key,
                        prior_edge_hash: edge.prior_edge_hash,
                        canonical_hash: hash,
                    },
                ),
                None => None,
            }
        },
        _ => None,
    }
}

/// What one pass over the pending edges makes of the table.
pub open spec fn pass_rows(
    users: Seq<[u8; 32]>,
    rows: Seq<EdgeView>,
    pending: Seq<EdgeView>,
) -> Seq<EdgeView>
    decreases pending.len(),
{
    if pending.len() == 0 {
        rows
    } else {
        rows_after(users, pass_rows(users, rows, pending.drop_last()), pending.last())
    }
}

/// The edges that one pass leaves for the next one.
pub open spec fn pass_deferred(
    users: Seq<[u8; 32]>,
    rows: Seq<EdgeView>,
    pending: Seq<EdgeView>,
) -> Seq<EdgeView>
    decreases pending.len(),
{
    if pending.len() == 0 {
        Seq::empty()
    } else {
        let before = pass_deferred(users, rows, pending.drop_last());
        if projection(
            users,
            pass_rows(users, rows, pending.drop_last()),
            pending.last(),
        ) is Deferred {
            before.push(pending.last())
        } else {
            before
        }
    }
}

/// Whether one pass projects an edge.
pub open spec fn pass_progresses(
    users: Seq<[u8; 32]>,
    rows: Seq<EdgeView>,
    pending: Seq<EdgeView>,
) -> bool
    decreases pending.len(),
{
    pending.len() > 0 && (pass_progresses(users, rows, pending.drop_last()) || projection(
        users,
        pass_rows(users, rows, pending.drop_last()),
        pending.last(),
    ) is Projected)
}

/// A pass leaves no more edges than it was given, and fewer where it projects
/// one.
pub proof fn lemma_pass_shrinks(users: Seq<[u8; 32]>, rows: Seq<EdgeView>, pending: Seq<EdgeView>)
    ensures
        pass_deferred(users, rows, pending).len() <= pending.len(),
        pass_progresses(users, rows, pending) ==> pass_deferred(users, rows, pending).len()
            < pending.len(),
    decreases pending.len(),
{
    if pending.len() > 0 {
        lemma_pass_shrinks(users, rows, pending.drop_last());
    }
}

/// The table after passes over the pending edges until one projects nothing.
pub open spec fn swept_rows(
    users: Seq<[u8; 32]>,
    rows: Seq<EdgeView>,
    pending: Seq<EdgeView>,
) -> Seq<EdgeView>
    decreases pending.len(),
{
    if pass_progresses(users, rows, pending) {
        proof {
            lemma_pass_shrinks(users, rows, pending);
        }
        swept_rows(
            users,
            pass_rows(users, rows, pending),
            pass_deferred(users, rows, pending),
        )
    } else {
        pass_rows(users, rows, pending)
    }
}

/// Projects what can be projected of the pending edges, pass after pass,
/// until a pass projects nothing. The edges that enter the table are appended
/// to `rows` in the order in which they are to be written.
pub fn sweep_pending_projections(
    users: &Vec<[u8; 32]>,
    rows: &mut Vec<EdgeLink>,
    pending: Vec<EdgeLink>,
)
    ensures
        edges_view(final(rows)@) == swept_rows(
            users@,
            edges_view(old(rows)@),
            edges_view(pending@),
        ),
        final(rows)@.len() >= old(rows)@.len(),
        final(rows)@.take(old(rows)@.len() as int) == old(rows)@,
{
    let mut pending: Vec<EdgeLink> = pending;
    let ghost first = rows@;
    let ghost goal = swept_rows(users@, edges_view(rows@), edges_view(pending@));
    assert(rows@.take(first.len() as int) =~= first);
    loop
        invariant_except_break
            swept_rows(users@, edges_view(rows@), edges_view(pending@)) == goal,
        invariant
            rows@.len() >= first.len(),
            rows@.take(first.len() as int) == first,
        ensures
            edges_view(rows@) == goal,
        decreases pending@.len(),
    {
        let ghost start = edges_view(rows@);
        let ghost todo = edges_view(pending@);
        let mut progressed: bool = false;
        let mut still_deferred: Vec<EdgeLink> = Vec::new();
        let mut i: usize = 0;
        assert(todo.take(0) =~= Seq::<EdgeView>::empty());
        assert(edges_view(still_deferred@) =~= Seq::<EdgeView>::empty());
        while i < pending.len()
            invariant
                i <= pending.len(),
                todo == edges_view(pending@),
                edges_view(rows@) == pass_rows(users@, start, todo.take(i as int)),
                edges_view(still_deferred@) == pass_deferred(users@, start, todo.take(i as int)),
                progressed == pass_progresses(users@, start, todo.take(i as int)),
                rows@.len() >= first.len(),
                rows@.take(first.len() as int) == first,
            decreases pending.len() - i,
        {
            let ghost before = todo.take(i as int);
            assert(todo.take(i + 1).drop_last() =~= before);
            assert(todo.take(i + 1).last() == pending@[i as int]@);
            let edge: EdgeLink = pending[i];
            let outcome: (TrustEdgeProjection, bool) = try_project_trust_edge(users, rows, &edge);
            match outcome.0 {
                TrustEdgeProjection::Projected => {
                    progressed = true;
                    if outcome.1 {
                        let ghost was = rows@;
                        rows.push(edge);
                        assert(edges_view(rows@) =~= edges_view(was).push(edge@));
                        assert(rows@.take(first.len() as int) =~= was.take(first.len() as int));
                    }
                },
                TrustEdgeProjection::Deferred => {
                    let ghost was = still_deferred@;
                    still_deferred.push(edge);
                    assert(edges_view(still_deferred@) =~= edges_view(was).push(edge@));
                },
                TrustEdgeProjection::EndpointMissing => {},
                TrustEdgeProjection::ChainFork => {},
            }
            i += 1;
        }
        assert(todo.take(i as int) =~= todo);
        proof {
            lemma_pass_shrinks(users@, start, todo);
        }
        pending = still_deferred;
        if !progressed {
            break;
        }
    }
}

/// Whether `chain` is a run of edges of one pair, each following the one
/// before it and the first one following nothing or an edge of the table.
pub open spec fn is_chain(
    users: Seq<[u8; 32]>,
    rows: Seq<EdgeView>,
    chain: Seq<EdgeView>,
) -> bool {
    &&& forall|i: int|
        #![trigger chain[i]]
        0 <= i < chain.len() ==> chain[i].from == chain[0].from && chain[i].to == chain[0].to
            && has_key(users, chain[i].from) && has_key(users, chain[i].to)
    &&& forall|i: int, j: int|
        #![trigger chain[i], chain[j]]
        0 <= i < j < chain.len() ==> chain[i].hash != chain[j].hash
    &&& forall|i: int, j: int|
        #![trigger chain[i], chain[j]]
        0 <= i && j == i + 1 && j < chain.len() ==> chain[j].prior == Some(chain[i].hash)
    &&& chain.len() > 0 ==> is_grounded(rows, chain[0])
}

/// Whether no edge of the table is one of `chain`, or takes the place of one.
pub open spec fn is_clear_for(rows: Seq<EdgeView>, chain: Seq<EdgeView>) -> bool {
    forall|i: int, j: int|
        #![trigger rows[i], chain[j]]
        0 <= i < rows.len() && 0 <= j < chain.len() ==> rows[i].hash != chain[j].hash && !(
        rows[i].from == chain[j].from && rows[i].to == chain[j].to && rows[i].prior
            == chain[j].prior)
}

/// Whether the table is `base` followed by edges of `chain`.
spec fn extends(rows: Seq<EdgeView>, base: Seq<EdgeView>, chain: Seq<EdgeView>) -> bool {
    &&& rows.len() >= base.len()
    &&& forall|i: int| #![trigger rows[i]] 0 <= i < base.len() ==> rows[i] == base[i]
    &&& forall|i: int|
        #![trigger rows[i]]
        base.len() <= i < rows.len() ==> chain.contains(rows[i])
}

proof fn lemma_chain_priors_differ(
    users: Seq<[u8; 32]>,
    base: Seq<EdgeView>,
    chain: Seq<EdgeView>,
    j: int,
    k: int,
)
    requires
        is_chain(users, base, chain),
        is_clear_for(base, chain),
        0 <= j < k < chain.len(),
    ensures
        chain[j].prior != chain[k].prior,
{
    assert(chain[k].prior == Some(chain[k - 1].hash));
    if j > 0 {
        assert(chain[j].prior == Some(chain[j - 1].hash));
        assert(chain[j - 1].hash != chain[k - 1].hash);
    } else if chain[0].prior is Some {
        let e = chain[0];
        let i = choose|i: int|
            0 <= i < base.len() && (#[trigger] base[i]).from == e.from && base[i].to == e.to
                && Some(base[i].hash) == e.prior;
        assert(base[i].hash != chain[k - 1].hash);
    }
}

proof fn lemma_chain_edge_is_never_refused(
    users: Seq<[u8; 32]>,
    rows: Seq<EdgeView>,
    base: Seq<EdgeView>,
    chain: Seq<EdgeView>,
    k: int,
)
    requires
        is_chain(users, base, chain),
        is_clear_for(base, chain),
        extends(rows, base, chain),
        0 <= k < chain.len(),
    ensures
        projection(users, rows, chain[k]) is Projected || projection(
            users,
            rows,
            chain[k],
        ) is Deferred,
        is_projected(rows, chain[k]) ==> rows.contains(chain[k]),
        k > 0 && rows.contains(chain[k - 1]) ==> projection(users, rows, chain[k]) is Projected,
        k == 0 ==> projection(users, rows, chain[k]) is Projected,
        extends(rows_after(users, rows, chain[k]), base, chain),
{
    let e = chain[k];
    if is_projected(rows, e) {
        let i = choose|i: int| 0 <= i < rows.len() && (#[trigger] rows[i]).hash == e.hash;
        if i < base.len() {
            assert(rows[i] == base[i]);
            assert(base[i].hash != chain[k].hash);
        } else {
            let j = choose|j: int| 0 <= j < chain.len() && chain[j] == rows[i];
            assert(chain[j].hash == chain[k].hash);
            assert(j == k);
        }
        assert(rows[i] == e);
        assert(rows.contains(e));
    }
    if is_forked(rows, e) {
        let i = choose|i: int|
            0 <= i < rows.len() && (#[trigger] rows[i]).from == e.from && rows[i].to == e.to
                && rows[i].prior == e.prior && rows[i].hash != e.hash;
        if i < base.len() {
            assert(rows[i] == base[i]);
            assert(!(base[i].from == chain[k].from && base[i].to == chain[k].to && base[i].prior
                == chain[k].prior));
        } else {
            let j = choose|j: int| 0 <= j < chain.len() && chain[j] == rows[i];
            if j < k {
                lemma_chain_priors_differ(users, base, chain, j, k);
            } else if k < j {
                lemma_chain_priors_differ(users, base, chain, k, j);
            }
        }
        assert(false);
    }
    if k > 0 && rows.contains(chain[k - 1]) {
        let i = choose|i: int| 0 <= i < rows.len() && rows[i] == chain[k - 1];
        assert(chain[k].prior == Some(chain[k - 1].hash));
        assert(rows[i].from == e.from && rows[i].to == e.to && Some(rows[i].hash) == e.prior);
        assert(is_grounded(rows, e));
    }
    if k == 0 && e.prior is Some {
        let i = choose|i: int|
            0 <= i < base.len() && (#[trigger] base[i]).from == e.from && base[i].to == e.to
                && Some(base[i].hash) == e.prior;
        assert(rows[i] == base[i]);
        assert(is_grounded(rows, e));
    }
    let after = rows_after(users, rows, e);
    assert forall|i: int| #![trigger after[i]] base.len() <= i < after.len() implies chain.contains(
        after[i],
    ) by {
        if i < rows.len() {
            assert(after[i] == rows[i]);
        } else {
            assert(after[i] == chain[k]);
        }
    }
    assert forall|i: int| #![trigger after[i]] 0 <= i < base.len() implies after[i] == base[i] by {
        assert(after[i] == rows[i]);
    }
}

proof fn lemma_pass_on_chain(
    users: Seq<[u8; 32]>,
    rows: Seq<EdgeView>,
    pending: Seq<EdgeView>,
    base: Seq<EdgeView>,
    chain: Seq<EdgeView>,
)
    requires
        is_chain(users, base, chain),
        is_clear_for(base, chain),
        extends(rows, base, chain),
        forall|x: EdgeView| #[trigger] pending.contains(x) ==> chain.contains(x),
    ensures
        extends(pass_rows(users, rows, pending), base, chain),
        forall|x: EdgeView| #[trigger]
            rows.contains(x) ==> pass_rows(users, rows, pending).contains(x),
        forall|x: EdgeView| #[trigger]
            pending.contains(x) ==> pass_rows(users, rows, pending).contains(x) || pass_deferred(
                users,
                rows,
                pending,
            ).contains(x),
        forall|x: EdgeView| #[trigger]
            pass_deferred(users, rows, pending).contains(x) ==> chain.contains(x),
        !pass_progresses(users, rows, pending) ==> pass_rows(users, rows, pending) == rows
            && forall|x: EdgeView| #[trigger]
            pending.contains(x) ==> projection(users, rows, x) is Deferred,
    decreases pending.len(),
{
    if pending.len() > 0 {
        let front = pending.drop_last();
        let e = pending.last();
        assert(pending[pending.len() - 1] == e);
        assert(pending.contains(e));
        assert forall|x: EdgeView| #[trigger] front.contains(x) implies chain.contains(x) by {
            let i = choose|i: int| 0 <= i < front.len() && front[i] == x;
            assert(pending[i] == x);
            assert(pending.contains(x));
        }
        lemma_pass_on_chain(users, rows, front, base, chain);
        let mid = pass_rows(users, rows, front);
        let end = pass_rows(users, rows, pending);
        let before = pass_deferred(users, rows, front);
        let left = pass_deferred(users, rows, pending);
        let k = choose|k: int| 0 <= k < chain.len() && chain[k] == e;
        lemma_chain_edge_is_never_refused(users, mid, base, chain, k);
        assert forall|x: EdgeView| #[trigger] mid.contains(x) implies end.contains(x) by {
            let i = choose|i: int| 0 <= i < mid.len() && mid[i] == x;
            assert(end[i] == x);
        }
        assert forall|x: EdgeView| #[trigger] rows.contains(x) implies end.contains(x) by {
            assert(mid.contains(x));
        }
        assert forall|x: EdgeView| #[trigger] before.contains(x) implies left.contains(x) by {
            let i = choose|i: int| 0 <= i < before.len() && before[i] == x;
            assert(left[i] == x);
        }
        assert forall|x: EdgeView| #[trigger] left.contains(x) implies chain.contains(x) by {
            let i = choose|i: int| 0 <= i < left.len() && left[i] == x;
            if i < before.len() {
                assert(before[i] == x);
                assert(before.contains(x));
            }
        }
        if projection(users, mid, e) is Projected {
            if !is_projected(mid, e) {
                assert(end[end.len() - 1] == e);
            }
            assert(end.contains(e));
        } else {
            assert(left[left.len() - 1] == e);
            assert(left.contains(e));
        }
        assert forall|x: EdgeView| #[trigger] pending.contains(x) implies end.contains(x)
            || left.contains(x) by {
            let i = choose|i: int| 0 <= i < pending.len() && pending[i] == x;
            if i < front.len() {
                assert(front[i] == x);
                assert(front.contains(x));
            }
        }
        if !pass_progresses(users, rows, pending) {
            assert forall|x: EdgeView| #[trigger] pending.contains(x) implies projection(
                users,
                rows,
                x,
            ) is Deferred by {
                let i = choose|i: int| 0 <= i < pending.len() && pending[i] == x;
                if i < front.len() {
                    assert(front[i] == x);
                    assert(front.contains(x));
                }
            }
        }
    }
}

proof fn lemma_sweep_on_chain(
    users: Seq<[u8; 32]>,
    rows: Seq<EdgeView>,
    pending: Seq<EdgeView>,
    base: Seq<EdgeView>,
    chain: Seq<EdgeView>,
    k: int,
)
    requires
        is_chain(users, base, chain),
        is_clear_for(base, chain),
        extends(rows, base, chain),
        forall|x: EdgeView| #[trigger] pending.contains(x) ==> chain.contains(x),
        forall|x: EdgeView| #[trigger]
            chain.contains(x) ==> rows.contains(x) || pending.contains(x),
        0 <= k < chain.len(),
    ensures
        swept_rows(users, rows, pending).contains(chain[k]),
    decreases pending.len(), k,
{
    lemma_pass_on_chain(users, rows, pending, base, chain);
    lemma_pass_shrinks(users, rows, pending);
    let end = pass_rows(users, rows, pending);
    let left = pass_deferred(users, rows, pending);
    if pass_progresses(users, rows, pending) {
        assert forall|x: EdgeView| #[trigger] chain.contains(x) implies end.contains(x)
            || left.contains(x) by {
            if !rows.contains(x) {
                assert(pending.contains(x));
            }
        }
        lemma_sweep_on_chain(users, end, left, base, chain, k);
    } else {
        lemma_chain_edge_is_never_refused(users, rows, base, chain, k);
        if k > 0 {
            lemma_sweep_on_chain(users, rows, pending, base, chain, k - 1);
        }
        assert(chain[k] == chain[k]);
        assert(chain.contains(chain[k]));
        if !rows.contains(chain[k]) {
            assert(pending.contains(chain[k]));
        }
    }
}

/// A whole chain of edges is projected in one sweep, whatever the order in
/// which its edges are stored.
pub proof fn law_sweep_projects_a_chain_in_any_order(
    users: Seq<[u8; 32]>,
    rows: Seq<EdgeView>,
    pending: Seq<EdgeView>,
    chain: Seq<EdgeView>,
)
    requires
        is_chain(users, rows, chain),
        is_clear_for(rows, chain),
        forall|x: EdgeView| pending.contains(x) <==> chain.contains(x),
    ensures
        forall|x: EdgeView| #[trigger]
            chain.contains(x) ==> swept_rows(users, rows, pending).contains(x),
{
    assert(extends(rows, rows, chain));
    assert forall|x: EdgeView| #[trigger] chain.contains(x) implies swept_rows(
        users,
        rows,
        pending,
    ).contains(x) by {
        let k = choose|k: int| 0 <= k < chain.len() && chain[k] == x;
        lemma_sweep_on_chain(users, rows, pending, rows, chain, k);
    }
}

/// Whether the move at `i` comes after every other one of the chain up to `t`:
/// it is later, or as late with a smaller hash.
pub open spec fn comes_last(chain: Seq<MoveRecord>, i: int, t: u64) -> bool {
    &&& 0 <= i < chain.len()
    &&& chain[i].created_at <= t
    &&& forall|j: int|
        #![trigger chain[j]]
        0 <= j < chain.len() && j != i && chain[j].created_at <= t ==> chain[j].created_at
            < chain[i].created_at || (chain[j].created_at == chain[i].created_at
            && bytes::lex_less(chain[i].canonical_hash@, chain[j].canonical_hash@))
}

/// Whether the move at `i` comes before every other one of the chain: it is
/// earlier, or as early with a smaller hash.
pub open spec fn comes_first(chain: Seq<MoveRecord>, i: int) -> bool {
    &&& 0 <= i < chain.len()
    &&& forall|j: int|
        #![trigger chain[j]]
        0 <= j < chain.len() && j != i ==> chain[i].created_at < chain[j].created_at || (
        chain[i].created_at == chain[j].created_at && bytes::lex_less(
            chain[i].canonical_hash@,
            chain[j].canonical_hash@,
        ))
}

/// A user lived where their last move until then led to, and where their first
/// move started before all of them. Where that move cannot be read any more,
/// or there is none, the instance that the user's object came from stands in.
pub proof fn law_a_user_lives_where_the_last_move_led(
    chain: &Vec<MoveRecord>,
    t: u64,
    arrived_from: &[u8; 32],
    home: [u8; 32],
    i: int,
)
    requires
        call_ensures(resolve_home_at_t, (chain, t, arrived_from), home),
    ensures
        comes_last(chain@, i, t) ==> home@ == (match chain@[i].ends {
            Some(ends) => ends.to_instance_key@,
            None => arrived_from@,
        }),
        comes_first(chain@, i) && chain@[i].created_at > t ==> home@ == (match chain@[i].ends {
            Some(ends) => ends.from_instance_key@,
            None => arrived_from@,
        }),
        chain@.len() == 0 ==> home@ == arrived_from@,
{
    let u = stored_time(t);
    if comes_last(chain@, i, t) {
        assert(chain@[i].created_at <= u);
        let k = choose|k: int|
            #[trigger] is_last_until(chain@, k, u) && home@ == (match chain@[k].ends {
                Some(ends) => ends.to_instance_key@,
                None => arrived_from@,
            });
        if k != i {
            assert(chain@[k].created_at <= t);
            assert(chain@[i].created_at <= chain@[k].created_at);
        }
    }
    if comes_first(chain@, i) && chain@[i].created_at > t {
        assert forall|j: int| 0 <= j < chain@.len() implies (#[trigger] chain@[j]).created_at
            > u by {
            if j != i {
                assert(chain@[i].created_at <= chain@[j].created_at);
            }
        }
        let k = choose|k: int|
            #[trigger] is_first(chain@, k) && home@ == (match chain@[k].ends {
                Some(ends) => ends.from_instance_key@,
                None => arrived_from@,
            });
        if k != i {
            assert(chain@[k].created_at <= chain@[i].created_at);
        }
    }
}

/// A move on record tells where it led only where its payload is still there
/// and is the one that its hash names.
pub proof fn law_only_what_a_hash_names_is_read(
    canonical_hash: &[u8],
    payload: &Option<Vec<u8>>,
    parsed: &Parsed,
    ends: Option<MoveEnds>,
)
    requires
        call_ensures(stored_move_ends, (canonical_hash, payload, parsed), ends),
    ensures
        ends matches Some(e) ==> {
            &&& *payload matches Some(p) && crypto::sha256_digest(p@) == canonical_hash@
            &&& *parsed matches Ok(SignedPayload::Move(m)) && e.from_instance_key
                == m.from_instance_key && e.to_instance_key == m.to_instance_key
        },
        ends is None ==> payload is None || crypto::sha256_digest(payload->Some_0@)
            != canonical_hash@ || !(*parsed matches Ok(SignedPayload::Move(_))),
{
}

/// An edge is written into the table only where both of its users have rows,
/// where it is not there yet, where no other edge of its pair follows the same
/// edge, and where it follows nothing or an edge of its pair that is there.
/// Such an edge is written, and every other one is told what it waits for or
/// why it is left out.
pub proof fn law_an_edge_follows_what_is_there(
    users: &Vec<[u8; 32]>,
    rows: &Vec<EdgeLink>,
    edge: &EdgeLink,
    outcome: (TrustEdgeProjection, bool),
)
    requires
        call_ensures(try_project_trust_edge, (users, rows, edge), outcome),
    ensures
        ({
            let known = (exists|u: int| 0 <= u < users@.len() && #[trigger] users@[u]@
                == edge.from_key@) && (exists|u: int|
                0 <= u < users@.len() && #[trigger] users@[u]@ == edge.to_key@);
            let there = exists|r: int|
                0 <= r < rows@.len() && (#[trigger] rows@[r]).canonical_hash@
                    == edge.canonical_hash@;
            let rivalled = exists|r: int| #[trigger] is_rival(rows@, r, *edge);
            let follows = edge.prior_edge_hash is None || exists|r: int| #[trigger]
                is_prior(rows@, r, *edge);
            &&& outcome.0 is EndpointMissing <==> !known
            &&& outcome.0 is ChainFork <==> known && !there && rivalled
            &&& outcome.0 is Deferred <==> known && !there && !rivalled && !follows
            &&& outcome.0 is Projected <==> known && (there || (!rivalled && follows))
            &&& outcome.1 <==> known && !there && !rivalled && follows
        }),
{
    let table = edges_view(rows@);
    let e = edge@;
    assert(table.len() == rows@.len());
    if has_key(users@, e.from) {
        let u = choose|u: int| 0 <= u < users@.len() && (#[trigger] users@[u])@ == e.from;
        assert(users@[u]@ == edge.from_key@);
    }
    if has_key(users@, e.to) {
        let u = choose|u: int| 0 <= u < users@.len() && (#[trigger] users@[u])@ == e.to;
        assert(users@[u]@ == edge.to_key@);
    }
    if is_projected(table, e) {
        let r = choose|r: int| 0 <= r < table.len() && (#[trigger] table[r]).hash == e.hash;
        assert(rows@[r].canonical_hash@ == edge.canonical_hash@);
    }
    if is_forked(table, e) {
        let r = choose|r: int|
            0 <= r < table.len() && (#[trigger] table[r]).from == e.from && table[r].to == e.to
                && table[r].prior == e.prior && table[r].hash != e.hash;
        assert(is_rival(rows@, r, *edge));
    }
    if is_grounded(table, e) && e.prior is Some {
        let r = choose|r: int|
            0 <= r < table.len() && (#[trigger] table[r]).from == e.from && table[r].to == e.to
                && Some(table[r].hash) == e.prior;
        assert(is_prior(rows@, r, *edge));
    }
    if exists|r: int| 0 <= r < rows@.len() && (#[trigger] rows@[r]).canonical_hash@
        == edge.canonical_hash@ {
        let r = choose|r: int|
            0 <= r < rows@.len() && (#[trigger] rows@[r]).canonical_hash@ == edge.canonical_hash@;
        assert(table[r].hash == e.hash);
    }
    if exists|r: int| #[trigger] is_rival(rows@, r, *edge) {
        let r = choose|r: int| #[trigger] is_rival(rows@, r, *edge);
        assert(table[r].from == e.from);
    }
    if exists|r: int| #[trigger] is_prior(rows@, r, *edge) {
        let r = choose|r: int| #[trigger] is_prior(rows@, r, *edge);
        assert(table[r].from == e.from);
    }
}

/// Whether the row at `r` is another edge of the pair of an edge that follows
/// the same edge, or nothing as it does.
pub open spec fn is_rival(rows: Seq<EdgeLink>, r: int, edge: EdgeLink) -> bool {
    &&& 0 <= r < rows.len()
    &&& rows[r].from_key@ == edge.from_key@
    &&& rows[r].to_key@ == edge.to_key@
    &&& rows[r].canonical_hash@ != edge.canonical_hash@
    &&& rows[r].prior_edge_hash is Some <==> edge.prior_edge_hash is Some
    &&& edge.prior_edge_hash is Some ==> rows[r].prior_edge_hash->Some_0@
        == edge.prior_edge_hash->Some_0@
}

/// Whether the row at `r` is the edge of the same pair that an edge follows.
pub open spec fn is_prior(rows: Seq<EdgeLink>, r: int, edge: EdgeLink) -> bool {
    &&& 0 <= r < rows.len()
    &&& rows[r].from_key@ == edge.from_key@
    &&& rows[r].to_key@ == edge.to_key@
    &&& edge.prior_edge_hash is Some && rows[r].canonical_hash@ == edge.prior_edge_hash->Some_0@
}

/// Whether every edge of a table follows nothing or an earlier edge of its
/// pair, and no two edges of a pair follow the same edge or bear one hash.
pub open spec fn is_gapless(rows: Seq<EdgeView>) -> bool {
    &&& forall|i: int|
        #![trigger rows[i]]
        0 <= i < rows.len() && rows[i].prior is Some ==> exists|j: int|
            0 <= j < i && (#[trigger] rows[j]).from == rows[i].from && rows[j].to == rows[i].to
                && rows[i].prior == Some(rows[j].hash)
    &&& forall|i: int, j: int|
        #![trigger rows[i], rows[j]]
        0 <= i < j < rows.len() ==> rows[i].hash != rows[j].hash && !(rows[i].from
            == rows[j].from && rows[i].to == rows[j].to && rows[i].prior == rows[j].prior)
}

proof fn lemma_attempt_leaves_no_gap(users: Seq<[u8; 32]>, rows: Seq<EdgeView>, e: EdgeView)
    requires
        is_gapless(rows),
    ensures
        is_gapless(rows_after(users, rows, e)),
{
    let after = rows_after(users, rows, e);
    if after.len() > rows.len() {
        assert(after =~= rows.push(e));
        assert forall|i: int|
            #![trigger after[i]]
            0 <= i < after.len() && after[i].prior is Some implies exists|j: int|
            0 <= j < i && (#[trigger] after[j]).from == after[i].from && after[j].to == after[i].to
                && after[i].prior == Some(after[j].hash) by {
            if i < rows.len() {
                assert(rows[i] == after[i]);
                let j = choose|j: int|
                    0 <= j < i && (#[trigger] rows[j]).from == rows[i].from && rows[j].to
                        == rows[i].to && rows[i].prior == Some(rows[j].hash);
                assert(after[j] == rows[j]);
            } else {
                let j = choose|j: int|
                    0 <= j < rows.len() && (#[trigger] rows[j]).from == e.from && rows[j].to
                        == e.to && Some(rows[j].hash) == e.prior;
                assert(after[j] == rows[j]);
            }
        }
        assert forall|i: int, j: int|
            #![trigger after[i], after[j]]
            0 <= i < j < after.len() implies after[i].hash != after[j].hash && !(after[i].from
            == after[j].from && after[i].to == after[j].to && after[i].prior
            == after[j].prior) by {
            assert(after[i] == rows[i]);
            if j < rows.len() {
                assert(after[j] == rows[j]);
            } else {
                assert(rows[i].hash != e.hash);
                if rows[i].from == e.from && rows[i].to == e.to && rows[i].prior == e.prior {
                    assert(is_forked(rows, e));
                }
            }
        }
    }
}

proof fn lemma_pass_leaves_no_gap(
    users: Seq<[u8; 32]>,
    rows: Seq<EdgeView>,
    pending: Seq<EdgeView>,
)
    requires
        is_gapless(rows),
    ensures
        is_gapless(pass_rows(users, rows, pending)),
    decreases pending.len(),
{
    if pending.len() > 0 {
        lemma_pass_leaves_no_gap(users, rows, pending.drop_last());
        lemma_attempt_leaves_no_gap(
            users,
            pass_rows(users, rows, pending.drop_last()),
            pending.last(),
        );
    }
}

/// Whatever comes in, and in whatever order, a table of edges has no gap: every
/// edge follows nothing or an earlier edge of its pair, no two edges of a pair
/// follow the same edge, and none stands there twice. An empty table has none
/// to begin with.
pub proof fn law_sweeps_leave_no_gap(
    users: Seq<[u8; 32]>,
    rows: Seq<EdgeView>,
    pending: Seq<EdgeView>,
)
    requires
        is_gapless(rows),
    ensures
        is_gapless(swept_rows(users, rows, pending)),
        is_gapless(Seq::empty()),
    decreases pending.len(),
{
    lemma_pass_leaves_no_gap(users, rows, pending);
    lemma_pass_shrinks(users, rows, pending);
    if pass_progresses(users, rows, pending) {
        law_sweeps_leave_no_gap(
            users,
            pass_rows(users, rows, pending),
            pass_deferred(users, rows, pending),
        );
    }
}

/// Whether a table has every row that another has, in its place.
spec fn grows(after: Seq<EdgeView>, before: Seq<EdgeView>) -> bool {
    after.len() >= before.len() && forall|i: int|
        #![trigger after[i]]
        0 <= i < before.len() ==> after[i] == before[i]
}

/// Whether a table can take nothing of an edge any more: it is there, one of
/// its users has no row, another edge is in its place, or the edge that it
/// follows is not there.
pub open spec fn is_settled(users: Seq<[u8; 32]>, rows: Seq<EdgeView>, e: EdgeView) -> bool {
    ||| exists|i: int| 0 <= i < rows.len() && (#[trigger] rows[i]).hash == e.hash
    ||| !(exists|u: int| 0 <= u < users.len() && (#[trigger] users[u])@ == e.from)
    ||| !(exists|u: int| 0 <= u < users.len() && (#[trigger] users[u])@ == e.to)
    ||| exists|i: int|
        0 <= i < rows.len() && (#[trigger] rows[i]).from == e.from && rows[i].to == e.to
            && rows[i].prior == e.prior && rows[i].hash != e.hash
    ||| e.prior is Some && !(exists|i: int|
        0 <= i < rows.len() && (#[trigger] rows[i]).from == e.from && rows[i].to == e.to && Some(
            rows[i].hash,
        ) == e.prior)
}

/// Whether a table will never take anything of an edge: it is there, one of
/// its users has no row, or another edge is in its place.
spec fn is_closed(users: Seq<[u8; 32]>, rows: Seq<EdgeView>, e: EdgeView) -> bool {
    is_projected(rows, e) || !has_key(users, e.from) || !has_key(users, e.to) || is_forked(rows, e)
}

proof fn lemma_closed_stays_closed(
    users: Seq<[u8; 32]>,
    before: Seq<EdgeView>,
    after: Seq<EdgeView>,
    e: EdgeView,
)
    requires
        grows(after, before),
        is_closed(users, before, e),
    ensures
        is_closed(users, after, e),
{
    if is_projected(before, e) {
        let i = choose|i: int| 0 <= i < before.len() && (#[trigger] before[i]).hash == e.hash;
        assert(after[i] == before[i]);
    } else if is_forked(before, e) {
        let i = choose|i: int|
            0 <= i < before.len() && (#[trigger] before[i]).from == e.from && before[i].to == e.to
                && before[i].prior == e.prior && before[i].hash != e.hash;
        assert(after[i] == before[i]);
    }
}

proof fn lemma_pass_settles(users: Seq<[u8; 32]>, rows: Seq<EdgeView>, pending: Seq<EdgeView>)
    ensures
        grows(pass_rows(users, rows, pending), rows),
        forall|x: EdgeView| #[trigger]
            pending.contains(x) ==> pass_deferred(users, rows, pending).contains(x) || is_closed(
                users,
                pass_rows(users, rows, pending),
                x,
            ),
        !pass_progresses(users, rows, pending) ==> pass_rows(users, rows, pending) == rows
            && forall|x: EdgeView| #[trigger]
            pass_deferred(users, rows, pending).contains(x) ==> projection(
                users,
                rows,
                x,
            ) is Deferred,
    decreases pending.len(),
{
    if pending.len() > 0 {
        let front = pending.drop_last();
        let e = pending.last();
        lemma_pass_settles(users, rows, front);
        let mid = pass_rows(users, rows, front);
        let end = pass_rows(users, rows, pending);
        let before = pass_deferred(users, rows, front);
        let left = pass_deferred(users, rows, pending);
        assert(grows(end, mid));
        assert forall|i: int| #![trigger end[i]] 0 <= i < rows.len() implies end[i] == rows[i] by {
            assert(end[i] == mid[i]);
        }
        assert forall|x: EdgeView| #[trigger] pending.contains(x) implies left.contains(x)
            || is_closed(users, end, x) by {
            let i = choose|i: int| 0 <= i < pending.len() && pending[i] == x;
            if i < front.len() {
                assert(front[i] == x);
                assert(front.contains(x));
                if before.contains(x) {
                    let k = choose|k: int| 0 <= k < before.len() && before[k] == x;
                    assert(left[k] == x);
                } else {
                    lemma_closed_stays_closed(users, mid, end, x);
                }
            } else {
                assert(x == e);
                if projection(users, mid, e) is Deferred {
                    assert(left[left.len() - 1] == e);
                } else if projection(users, mid, e) is Projected {
                    if !is_projected(mid, e) {
                        assert(end[mid.len() as int] == e);
                    }
                    assert(is_projected(end, e)) by {
                        if is_projected(mid, e) {
                            let k = choose|k: int|
                                0 <= k < mid.len() && (#[trigger] mid[k]).hash == e.hash;
                            assert(end[k] == mid[k]);
                        }
                    }
                } else {
                    lemma_closed_stays_closed(users, mid, end, x);
                }
            }
        }
        if !pass_progresses(users, rows, pending) {
            assert forall|x: EdgeView| #[trigger] left.contains(x) implies projection(
                users,
                rows,
                x,
            ) is Deferred by {
                let i = choose|i: int| 0 <= i < left.len() && left[i] == x;
                if i < before.len() {
                    assert(before[i] == x);
                    assert(before.contains(x));
                }
            }
        }
    }
}

/// A sweep leaves nothing that could be projected: each edge that was pending
/// is in the table, or one of its users has no row, or another edge is in its
/// place, or the edge that it follows is not there. It takes nothing out of
/// the table.
pub proof fn law_sweeps_leave_nothing_to_project(
    users: Seq<[u8; 32]>,
    rows: Seq<EdgeView>,
    pending: Seq<EdgeView>,
)
    ensures
        forall|x: EdgeView| #[trigger]
            pending.contains(x) ==> is_settled(users, swept_rows(users, rows, pending), x),
        swept_rows(users, rows, pending).len() >= rows.len(),
        forall|i: int|
            0 <= i < rows.len() ==> #[trigger] swept_rows(users, rows, pending)[i] == rows[i],
    decreases pending.len(),
{
    let end = pass_rows(users, rows, pending);
    let left = pass_deferred(users, rows, pending);
    let swept = swept_rows(users, rows, pending);
    lemma_pass_settles(users, rows, pending);
    lemma_pass_shrinks(users, rows, pending);
    if pass_progresses(users, rows, pending) {
        law_sweeps_leave_nothing_to_project(users, end, left);
        assert(swept == swept_rows(users, end, left));
        assert(grows(swept, end));
        assert forall|i: int| 0 <= i < rows.len() implies #[trigger] swept[i] == rows[i] by {
            assert(end[i] == rows[i]);
        }
        assert forall|x: EdgeView| #[trigger] pending.contains(x) implies is_settled(
            users,
            swept,
            x,
        ) by {
            if !left.contains(x) {
                lemma_closed_stays_closed(users, end, swept, x);
            }
        }
    }
}

/// The row of a remote user is made where there is none, brought up to date
/// where it is a mere stub, and left alone where it belongs to an account of
/// this instance. One that is there keeps its identifier.
pub proof fn law_local_accounts_are_left_alone(
    public_key: &[u8; 32],
    display_name: &str,
    home_instance: &[u8; 32],
    existing: &Option<KnownUser>,
    new_id: &str,
    stub: StubRow,
)
    requires
        call_ensures(
            hydrate_stub_user,
            (public_key, display_name, home_instance, existing, new_id),
            stub,
        ),
    ensures
        existing is None <==> stub.action is Insert,
        existing is None ==> stub.id@ == new_id@,
        *existing matches Some(known) ==> {
            &&& stub.id@ == known.id@
            &&& known.signup_method@ == "federated"@ <==> stub.action is Refresh
        },
        stub.public_key@ == public_key@ && stub.home_instance@ == home_instance@,
        stub.display_name@ == safe_name(display_name@, public_key@),
{
}

/// A user lives now where their moves say, where that has the form of a key,
/// and otherwise where their object came from.
pub proof fn law_recorded_homes_come_first(
    recorded: &Option<Vec<u8>>,
    arrived_from: &[u8; 32],
    home: [u8; 32],
)
    requires
        call_ensures(resolve_current_home, (recorded, arrived_from), home),
    ensures
        *recorded matches Some(key) ==> key@.len() == 32 ==> home@ == key@,
        recorded is None || recorded->Some_0@.len() != 32 ==> home@ == arrived_from@,
{
}

/// The characters that are shown of a name are all those that are no control
/// character, neither invisible nor direction-changing, in their order: with a
/// character more a name shows that one more or, where it is none of those,
/// what it showed before.
pub proof fn law_only_tricks_are_taken_out(name: Seq<char>, c: char)
    ensures
        shown(Seq::empty()) == Seq::<char>::empty(),
        is_shown(c) ==> shown(name.push(c)) == shown(name).push(c),
        !is_shown(c) ==> shown(name.push(c)) == shown(name),
        is_shown(c) <==> !text::is_control(c) && !('\u{200b}' <= c && c <= '\u{200f}') && !(
        '\u{202a}' <= c && c <= '\u{202e}') && !('\u{2060}' <= c && c <= '\u{2064}') && !(
        '\u{2066}' <= c && c <= '\u{2069}') && c != '\u{feff}',
{
    assert(name.push(c).drop_last() =~= name);
}

/// A name that shows anything is shown as it is but for what is taken out, and
/// one that shows nothing by the first eight hexadecimal digits of its user's
/// key.
pub proof fn law_names_are_shown_as_they_are(raw: &str, public_key: &[u8; 32], name: String)
    requires
        call_ensures(sanitize_remote_display_name, (raw, public_key), name),
    ensures
        shown(raw@).len() > 0 ==> name@ == shown(raw@),
        shown(raw@).len() == 0 ==> name@ == text::hex(public_key@.take(4)),
{
}

/// A neutral edge, and no other, ends what its pair signed before.
pub proof fn law_neutral_edges_end_a_chain(edge: &TrustEdge, erases: bool)
    requires
        call_ensures(erases_chain, (edge,), erases),
    ensures
        edge.stance is Neutral ==> erases,
        edge.stance is Trust || edge.stance is Distrust ==> !erases,
{
}

/// A stored object is swept for a user exactly where it is a trust edge from
/// or to that user, and its hash is one.
pub proof fn law_edges_of_a_user_are_swept(
    canonical_hash: &[u8],
    parsed: &Parsed,
    user_key: &[u8; 32],
    candidate: Option<EdgeLink>,
)
    requires
        call_ensures(pending_candidate, (canonical_hash, parsed, user_key), candidate),
    ensures
        candidate is Some <==> canonical_hash@.len() == 32 && (*parsed matches Ok(
            SignedPayload::TrustEdge(edge),
        ) && (edge.from_key@ == user_key@ || edge.to_key@ == user_key@)),
        candidate matches Some(c) ==> (*parsed matches Ok(SignedPayload::TrustEdge(edge)) && {
            &&& c.from_key == edge.from_key
            &&& c.to_key == edge.to_key
            &&& c.prior_edge_hash == edge.prior_edge_hash
            &&& c.canonical_hash@ == canonical_hash@
        }),
{
}

/// An edge is stored under its own time where that can be written, and under
/// the present otherwise.
pub proof fn law_edges_keep_their_time(created_at: u64, now: i64, text: String)
    requires
        call_ensures(edge_stamp_at, (created_at, now), text),
    ensures
        created_at <= i64::MAX ==> (timestamp::text_of_millis(
            created_at as int,
            timestamp::ISO_SECONDS@,
        ) matches Some(own) ==> text@ == own),
        created_at > i64::MAX || timestamp::text_of_millis(
            created_at as int,
            timestamp::ISO_SECONDS@,
        ) is None ==> timestamp::text_of_millis(now * 1000, timestamp::ISO_SECONDS@) == Some(
            text@,
        ),
{
}

proof fn lemma_pass_adds_pending(
    users: Seq<[u8; 32]>,
    rows: Seq<EdgeView>,
    pending: Seq<EdgeView>,
)
    ensures
        pass_rows(users, rows, pending).len() >= rows.len(),
        forall|i: int|
            rows.len() <= i < pass_rows(users, rows, pending).len() ==> pending.contains(
                #[trigger] pass_rows(users, rows, pending)[i],
            ),
        forall|x: EdgeView| #[trigger]
            pass_deferred(users, rows, pending).contains(x) ==> pending.contains(x),
    decreases pending.len(),
{
    if pending.len() > 0 {
        let front = pending.drop_last();
        let e = pending.last();
        lemma_pass_adds_pending(users, rows, front);
        let mid = pass_rows(users, rows, front);
        let end = pass_rows(users, rows, pending);
        let left = pass_deferred(users, rows, pending);
        let before = pass_deferred(users, rows, front);
        assert(pending[pending.len() - 1] == e);
        assert forall|x: EdgeView| #[trigger] front.contains(x) implies pending.contains(x) by {
            let k = choose|k: int| 0 <= k < front.len() && front[k] == x;
            assert(pending[k] == x);
        }
        assert forall|i: int| rows.len() <= i < end.len() implies pending.contains(
            #[trigger] end[i],
        ) by {
            if i < mid.len() {
                assert(end[i] == mid[i]);
            }
        }
        assert forall|x: EdgeView| #[trigger] left.contains(x) implies pending.contains(x) by {
            let k = choose|k: int| 0 <= k < left.len() && left[k] == x;
            if k < before.len() {
                assert(before[k] == x);
                assert(before.contains(x));
            }
        }
    }
}

proof fn lemma_sweep_adds_pending(
    users: Seq<[u8; 32]>,
    rows: Seq<EdgeView>,
    pending: Seq<EdgeView>,
)
    ensures
        forall|i: int|
            rows.len() <= i < swept_rows(users, rows, pending).len() ==> pending.contains(
                #[trigger] swept_rows(users, rows, pending)[i],
            ),
    decreases pending.len(),
{
    lemma_pass_adds_pending(users, rows, pending);
    lemma_pass_shrinks(users, rows, pending);
    if pass_progresses(users, rows, pending) {
        let end = pass_rows(users, rows, pending);
        let left = pass_deferred(users, rows, pending);
        lemma_sweep_adds_pending(users, end, left);
        law_sweeps_leave_nothing_to_project(users, end, left);
        let swept = swept_rows(users, rows, pending);
        assert(swept == swept_rows(users, end, left));
        assert forall|i: int| rows.len() <= i < swept.len() implies pending.contains(
            #[trigger] swept[i],
        ) by {
            if i < end.len() {
                assert(swept[i] == end[i]);
            } else {
                assert(left.contains(swept[i]));
            }
        }
    }
}

/// A sweep changes nothing in the table and appends nothing but pending edges.
/// It leaves no gap where there was none, and no pending edge that could still
/// be projected.
pub proof fn law_sweeps_append_what_follows(
    users: &Vec<[u8; 32]>,
    rows: &mut Vec<EdgeLink>,
    pending: Vec<EdgeLink>,
    unit: (),
    i: int,
)
    requires
        call_ensures(sweep_pending_projections, (users, rows, pending), unit),
        is_gapless(edges_view(old(rows)@)),
    ensures
        is_gapless(edges_view(final(rows)@)),
        final(rows)@.len() >= old(rows)@.len(),
        0 <= i < old(rows)@.len() ==> final(rows)@[i] == old(rows)@[i],
        old(rows)@.len() <= i < final(rows)@.len() ==> edges_view(pending@).contains(
            final(rows)@[i]@,
        ),
        0 <= i < pending@.len() ==> is_settled(users@, edges_view(final(rows)@), pending@[i]@),
{
    let before = edges_view(old(rows)@);
    let after = edges_view(final(rows)@);
    let waits = edges_view(pending@);
    law_sweeps_leave_no_gap(users@, before, waits);
    law_sweeps_leave_nothing_to_project(users@, before, waits);
    lemma_sweep_adds_pending(users@, before, waits);
    if 0 <= i < old(rows)@.len() {
        assert(final(rows)@.take(old(rows)@.len() as int)[i] == final(rows)@[i]);
    }
    if old(rows)@.len() <= i < final(rows)@.len() {
        assert(after[i] == final(rows)@[i]@);
    }
    if 0 <= i < pending@.len() {
        assert(waits[i] == pending@[i]@);
        assert(waits.contains(waits[i]));
    }
}

} // verus!
