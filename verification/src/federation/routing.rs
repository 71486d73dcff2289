//! Which peers an object goes to: by its class, by what each peer wants to
//! hear of, and by how much of what is here a peer wants anyway.

use vstd::prelude::*;

use crate::bytes::key_from_slice;
use crate::federation::bloom;
use crate::federation::bloom::{BloomError, BloomFilter};
use crate::text::same_text;

verus! {

/// How objects are sent to a peer.
#[derive(Clone, Copy, Debug, PartialEq, Eq, Structural)]
pub enum Mode {
    /// Those that it wants to hear of.
    Filtered,
    /// All.
    All,
}

/// The stored form of a mode.
pub open spec fn mode_word(m: Mode) -> Seq<char> {
    match m {
        Mode::Filtered => "filtered"@,
        Mode::All => "all"@,
    }
}

/// The mode of a stored form: filtered for all that is not known.
pub open spec fn mode_of(word: Seq<char>) -> Mode {
    if word == "all"@ {
        Mode::All
    } else {
        Mode::Filtered
    }
}

/// The stored form of a mode reads back as the mode.
pub proof fn law_mode_words_read_back(m: Mode)
    ensures
        mode_of(mode_word(m)) == m,
{
    reveal_strlit("all");
    reveal_strlit("filtered");
    assert("all"@.len() == 3);
    assert("filtered"@.len() == 8);
}

impl Mode {
    /// The stored form of the mode.
    pub fn as_db_str(self) -> (word: &'static str)
        ensures
            word@ == mode_word(self),
    {
        match self {
            Mode::Filtered => "filtered",
            Mode::All => "all",
        }
    }

    /// The mode of a stored form.
    pub fn from_db_str(s: &str) -> (mode: Mode)
        ensures
            mode == mode_of(s@),
    {
        if same_text(s, "all") {
            Mode::All
        } else {
            Mode::Filtered
        }
    }
}

/// How many peers an object is sent on to.
pub const REDUNDANCY_K: usize = 2;

/// How many peers a move is sent on to.
pub const REDUNDANCY_K_MOVE: usize = 5;

/// The share of the local users that a peer wants to hear of from which on it
/// is sent all, in per cent.
pub const HIGH_THRESHOLD_PERCENT: u8 = 80;

/// The share of the local users that a peer wants to hear of below which it is
/// no longer sent all, in per cent.
pub const LOW_THRESHOLD_PERCENT: u8 = 60;

/// The classes of objects, by how they are routed.
#[derive(Clone, Copy, Debug, PartialEq, Eq, Structural)]
pub enum ForwardingClass {
    /// Trust edges, by the user that they come from.
    TrustEdge,
    /// What has an author, by the author.
    Authored,
    /// Moves, which go to every peer.
    Move,
}

impl ForwardingClass {
    /// Which of a peer's filters decides.
    pub fn select_filter<'a>(&self, cf: &'a BloomFilter, ef: &'a BloomFilter) -> (filter:
        &'a BloomFilter)
        requires
            !(self is Move),
        ensures
            filter == (if self is TrustEdge {
                ef
            } else {
                cf
            }),
    {
        match self {
            ForwardingClass::TrustEdge => ef,
            _ => cf,
        }
    }

    /// Whether no filter decides.
    pub fn bypasses_filters(self) -> (yes: bool)
        ensures
            yes == (self is Move),
    {
        matches!(self, ForwardingClass::Move)
    }

    /// How many peers an object of the class is sent on to.
    pub fn redundancy_cap(self) -> (cap: usize)
        ensures
            cap == (if self is Move {
                REDUNDANCY_K_MOVE
            } else {
                REDUNDANCY_K
            }),
    {
        match self {
            ForwardingClass::Move => REDUNDANCY_K_MOVE,
            _ => REDUNDANCY_K,
        }
    }
}

/// A peer that an object goes to.
#[derive(Clone, Copy, Debug, PartialEq, Eq)]
pub struct PeerRouting {
    pub instance_pubkey: [u8; 32],
    pub mode: Mode,
}

/// A filter on record, column by column.
#[derive(Debug)]
pub struct FilterRow {
    pub k: Option<i64>,
    pub m: Option<i64>,
    pub n_est: Option<i64>,
    /// The false-positive rate, in parts per million.
    pub fpr_ppm: Option<u32>,
    pub bytes: Option<Vec<u8>>,
}

/// Whether the columns of a filter make one.
pub open spec fn is_filter(row: FilterRow) -> bool {
    &&& row.k is Some && 0 < row.k->Some_0 <= bloom::MAX_HASHES
    &&& row.m is Some && 0 < row.m->Some_0 <= u32::MAX && row.m->Some_0 % 8 == 0
    &&& row.n_est is Some && row.n_est->Some_0 >= 0
    &&& row.fpr_ppm is Some && 0 < row.fpr_ppm->Some_0 < bloom::WHOLE_PPM
    &&& row.bytes is Some && row.bytes->Some_0@.len() * 8 == row.m->Some_0
}

/// Whether a filter on record tells that a key is in it.
pub open spec fn row_tells(row: FilterRow, key: Seq<u8>) -> bool {
    bloom::tells(row.bytes->Some_0@, row.k->Some_0 as int, row.m->Some_0 as int, key)
}

/// Makes a filter of its columns, where they make one.
pub fn build_filter(row: &FilterRow) -> (filter: Option<BloomFilter>)
    ensures
        filter is Some <==> is_filter(*row),
        filter matches Some(f) ==> f.wf() && f.hashes() == row.k->Some_0 && f.bits()
            == row.m->Some_0 && f.estimate() == row.n_est->Some_0 && f.rate()
            == row.fpr_ppm->Some_0 && f@ == row.bytes->Some_0@,
{
    let k: i64 = match row.k {
        Some(k) => k,
        None => return None,
    };
    let m: i64 = match row.m {
        Some(m) => m,
        None => return None,
    };
    let n_est: i64 = match row.n_est {
        Some(n) => n,
        None => return None,
    };
    let fpr_ppm: u32 = match row.fpr_ppm {
        Some(p) => p,
        None => return None,
    };
    let bytes: &Vec<u8> = match &row.bytes {
        Some(b) => b,
        None => return None,
    };
    if k < 0 || k > u32::MAX as i64 || m < 0 || m > u32::MAX as i64 || n_est < 0 {
        return None;
    }
    let copy: Vec<u8> = vstd::slice::slice_to_vec(bytes.as_slice());
    match BloomFilter::from_parts(k as u32, m as u32, n_est as u64, fpr_ppm, copy) {
        Ok(f) => Some(f),
        Err(e) => {
            proof {
                assert(!is_filter(*row)) by {
                    match e {
                        BloomError::HashCount => {},
                        BloomError::BitCount => {},
                        BloomError::Rate => {},
                        BloomError::Length => {},
                    }
                }
            }
            None
        },
    }
}

/// An active peer on record: its key, the filters that it announced, if it
/// did, and how objects are sent to it.
#[derive(Debug)]
pub struct RoutingRow {
    pub instance_pubkey: Vec<u8>,
    pub content: FilterRow,
    pub edge_origin: FilterRow,
    pub outbound_mode: Option<String>,
}

/// How objects are sent to a peer on record.
pub open spec fn row_mode(row: RoutingRow) -> Mode {
    match row.outbound_mode {
        Some(word) => mode_of(word@),
        None => Mode::Filtered,
    }
}

/// Whether an object of a class goes to a peer on record.
pub open spec fn is_routed(row: RoutingRow, class: ForwardingClass, key: Seq<u8>) -> bool {
    row.instance_pubkey@.len() == 32 && (class is Move || (is_filter(row.content) && is_filter(
        row.edge_origin,
    ) && (row_mode(row) is All || row_tells(
        if class is TrustEdge {
            row.edge_origin
        } else {
            row.content
        },
        key,
    ))))
}

/// What is told of the peers that an object goes to.
pub open spec fn routing_view(list: Seq<PeerRouting>) -> Seq<(Seq<u8>, Mode)> {
    Seq::new(list.len(), |i: int| (list[i].instance_pubkey@, list[i].mode))
}

/// The peers that an object goes to, in the order on record.
pub open spec fn routed(rows: Seq<RoutingRow>, class: ForwardingClass, key: Seq<u8>) -> Seq<
    (Seq<u8>, Mode),
>
    decreases rows.len(),
{
    if rows.len() == 0 {
        Seq::empty()
    } else {
        let before = routed(rows.drop_last(), class, key);
        let row = rows.last();
        if is_routed(row, class, key) {
            before.push((row.instance_pubkey@, row_mode(row)))
        } else {
            before
        }
    }
}

fn read_mode(row: &RoutingRow) -> (mode: Mode)
    ensures
        mode == row_mode(*row),
{
    match &row.outbound_mode {
        Some(word) => Mode::from_db_str(word.as_str()),
        None => Mode::Filtered,
    }
}

fn route(row: &RoutingRow, class: ForwardingClass, key: &[u8]) -> (peer: Option<PeerRouting>)
    ensures
        peer is Some <==> is_routed(*row, class, key@),
        peer matches Some(p) ==> p.instance_pubkey@ == row.instance_pubkey@ && p.mode == row_mode(
            *row,
        ),
{
    let instance_pubkey: [u8; 32] = match key_from_slice(row.instance_pubkey.as_slice()) {
        Some(k) => k,
        None => return None,
    };
    let mode: Mode = read_mode(row);
    if class.bypasses_filters() {
        return Some(PeerRouting { instance_pubkey, mode });
    }
    let cf: BloomFilter = match build_filter(&row.content) {
        Some(f) => f,
        None => return None,
    };
    let ef: BloomFilter = match build_filter(&row.edge_origin) {
        Some(f) => f,
        None => return None,
    };
    let admitted: bool = match mode {
        Mode::All => true,
        Mode::Filtered => class.select_filter(&cf, &ef).contains(key),
    };
    if admitted {
        Some(PeerRouting { instance_pubkey, mode })
    } else {
        None
    }
}

/// The peers that an object goes to: `rows` are the active peers on record.
pub fn peers_interested_in(rows: &Vec<RoutingRow>, class: ForwardingClass, key: &[u8]) -> (peers:
    Vec<PeerRouting>)
    ensures
        routing_view(peers@) == routed(rows@, class, key@),
{
    let mut peers: Vec<PeerRouting> = Vec::new();
    let mut i: usize = 0;
    assert(rows@.take(0) =~= Seq::<RoutingRow>::empty());
    assert(routing_view(peers@) =~= Seq::<(Seq<u8>, Mode)>::empty());
    while i < rows.len()
        invariant
            i <= rows.len(),
            routing_view(peers@) == routed(rows@.take(i as int), class, key@),
        decreases rows.len() - i,
    {
        let ghost before = routing_view(peers@);
        assert(rows@.take(i + 1).drop_last() =~= rows@.take(i as int));
        assert(rows@.take(i + 1).last() == rows@[i as int]);
        if let Some(peer) = route(&rows[i], class, key) {
            peers.push(peer);
            assert(routing_view(peers@) =~= before.push((peer.instance_pubkey@, peer.mode)));
        }
        i += 1;
    }
    assert(rows@.take(i as int) =~= rows@);
    peers
}

/// How objects are to be sent to a peer, when it wants to hear of `hits` of
/// `total` local users.
pub open spec fn next_mode(current: Mode, hits: nat, total: nat) -> Mode {
    if total == 0 {
        current
    } else {
        match current {
            Mode::Filtered => if 100 * hits >= HIGH_THRESHOLD_PERCENT * total {
                Mode::All
            } else {
                Mode::Filtered
            },
            Mode::All => if 100 * hits < LOW_THRESHOLD_PERCENT * total {
                Mode::Filtered
            } else {
                Mode::All
            },
        }
    }
}

/// Decides how objects are to be sent to a peer, by how many of the local
/// users it wants to hear of.
pub fn classify_mode(
    current_mode: Mode,
    peer_content_filter: &BloomFilter,
    local_user_keys: &[[u8; 32]],
) -> (mode: Mode)
    requires
        peer_content_filter.wf(),
    ensures
        mode == next_mode(
            current_mode,
            peer_content_filter.hits_of(local_user_keys@),
            local_user_keys@.len(),
        ),
{
    if local_user_keys.len() == 0 {
        return current_mode;
    }
    let hits: u128 = peer_content_filter.coverage(local_user_keys) as u128;
    let total: u128 = local_user_keys.len() as u128;
    match current_mode {
        Mode::Filtered => if 100 * hits >= HIGH_THRESHOLD_PERCENT as u128 * total {
            Mode::All
        } else {
            Mode::Filtered
        },
        Mode::All => if 100 * hits < LOW_THRESHOLD_PERCENT as u128 * total {
            Mode::Filtered
        } else {
            Mode::All
        },
    }
}

/// A mode that was decided stands while nothing changes, and holds anywhere
/// between the thresholds.
pub proof fn law_modes_do_not_flap(current: Mode, hits: nat, total: nat)
    ensures
        next_mode(next_mode(current, hits, total), hits, total) == next_mode(current, hits, total),
        LOW_THRESHOLD_PERCENT * total <= 100 * hits < HIGH_THRESHOLD_PERCENT * total ==> next_mode(
            current,
            hits,
            total,
        ) == current,
{
    assert(LOW_THRESHOLD_PERCENT * total <= HIGH_THRESHOLD_PERCENT * total);
}

/// Nothing is decided without a local user.
pub proof fn law_no_users_no_change(current: Mode)
    ensures
        next_mode(current, 0, 0) == current,
{
}

/// A move goes to every active peer, whatever that peer wants to hear of.
pub proof fn law_moves_go_to_every_peer(rows: Seq<RoutingRow>, key: Seq<u8>)
    requires
        forall|i: int| 0 <= i < rows.len() ==> (#[trigger] rows[i]).instance_pubkey@.len() == 32,
    ensures
        routed(rows, ForwardingClass::Move, key).len() == rows.len(),
        forall|i: int|
            0 <= i < rows.len() ==> (#[trigger] routed(rows, ForwardingClass::Move, key)[i]).0
                == rows[i].instance_pubkey@,
    decreases rows.len(),
{
    if rows.len() > 0 {
        let front = rows.drop_last();
        assert forall|i: int| 0 <= i < front.len() implies (
        #[trigger] front[i]).instance_pubkey@.len() == 32 by {
            assert(front[i] == rows[i]);
        }
        law_moves_go_to_every_peer(front, key);
        assert(is_routed(rows.last(), ForwardingClass::Move, key)) by {
            assert(rows[rows.len() - 1].instance_pubkey@.len() == 32);
        }
        assert forall|i: int| 0 <= i < rows.len() implies (
        #[trigger] routed(rows, ForwardingClass::Move, key)[i]).0 == rows[i].instance_pubkey@ by {
            if i < front.len() {
                assert(routed(front, ForwardingClass::Move, key)[i].0 == front[i].instance_pubkey@);
            }
        }
    }
}

/// A peer that never announced what it wants to hear of gets nothing but
/// moves.
pub proof fn law_unannounced_peer_gets_only_moves(
    row: RoutingRow,
    class: ForwardingClass,
    key: Seq<u8>,
)
    requires
        row.content.bytes is None,
        !(class is Move),
    ensures
        !is_routed(row, class, key),
{
}

/// Whether the columns of a filter on record make one: one to 64 hash
/// functions, a whole number of bytes of bits, an estimate, a rate between
/// none and all, and a byte for each eight bits.
pub proof fn law_filters_on_record_are_sound(row: &FilterRow, filter: Option<BloomFilter>)
    requires
        call_ensures(build_filter, (row,), filter),
    ensures
        filter is Some <==> (row.k matches Some(k) && 1 <= k <= 64) && (row.m matches Some(m) && 8
            <= m <= u32::MAX && m % 8 == 0) && (row.n_est matches Some(n) && n >= 0) && (
        row.fpr_ppm matches Some(r) && 0 < r < 1_000_000) && (row.bytes matches Some(b) && (
        row.m matches Some(m) && b@.len() * 8 == m)),
{
}

/// With a peer more on record, the object goes to that peer too, behind the
/// others, exactly where it is meant for it: a move always, any other object
/// where the peer announced its filters and either takes everything or is told
/// by the filter for the class, that of edges for a trust edge and that of
/// content for the rest.
pub proof fn law_objects_go_to_those_who_want_them(
    rows: &Vec<RoutingRow>,
    class: ForwardingClass,
    key: &[u8],
    peers: Vec<PeerRouting>,
    more: &Vec<RoutingRow>,
    with_more: Vec<PeerRouting>,
    row: RoutingRow,
    content: Option<BloomFilter>,
    edges: Option<BloomFilter>,
    i: int,
)
    requires
        call_ensures(peers_interested_in, (rows, class, key), peers),
        call_ensures(peers_interested_in, (more, class, key), with_more),
        more@ == rows@.push(row),
        call_ensures(build_filter, (&row.content,), content),
        call_ensures(build_filter, (&row.edge_origin,), edges),
    ensures
        ({
            let all = row.outbound_mode matches Some(word) && word@ == "all"@;
            let told = if class is TrustEdge {
                edges matches Some(f) && f.has(key@)
            } else {
                content matches Some(f) && f.has(key@)
            };
            let wanted = row.instance_pubkey@.len() == 32 && (class is Move || (content is Some
                && edges is Some && (all || told)));
            &&& with_more@.len() == peers@.len() + if wanted {
                1int
            } else {
                0
            }
            &&& 0 <= i < peers@.len() ==> with_more@[i].instance_pubkey@
                == peers@[i].instance_pubkey@ && with_more@[i].mode == peers@[i].mode
            &&& wanted ==> with_more@.last().instance_pubkey@ == row.instance_pubkey@ && (
            with_more@.last().mode is All <==> all)
            &&& rows@.len() == 0 ==> peers@.len() == 0
        }),
{
    assert(more@.drop_last() =~= rows@);
    assert(more@.last() == row);
    let before = routing_view(peers@);
    let after = routing_view(with_more@);
    assert(before.len() == peers@.len() && after.len() == with_more@.len());
    if 0 <= i < peers@.len() {
        assert(before[i] == (peers@[i].instance_pubkey@, peers@[i].mode));
        assert(after[i] == (with_more@[i].instance_pubkey@, with_more@[i].mode));
    }
    if with_more@.len() > 0 {
        let last = with_more@.len() - 1;
        assert(after[last] == (with_more@[last].instance_pubkey@, with_more@[last].mode));
    }
}

/// A peer is sent everything once it wants to hear of four of five local users
/// or more, and is again asked what it wants once it wants to hear of fewer
/// than three of five.
pub proof fn law_modes_follow_the_share(
    current_mode: Mode,
    peer_content_filter: &BloomFilter,
    local_user_keys: &[[u8; 32]],
    mode: Mode,
)
    requires
        peer_content_filter.wf(),
        call_ensures(classify_mode, (current_mode, peer_content_filter, local_user_keys), mode),
    ensures
        ({
            let hits = peer_content_filter.hits_of(local_user_keys@);
            let total = local_user_keys@.len();
            &&& total > 0 && 5 * hits >= 4 * total ==> mode is All
            &&& total > 0 && 5 * hits < 3 * total ==> mode is Filtered
            &&& total == 0 || 3 * total <= 5 * hits < 4 * total ==> mode == current_mode
        }),
{
}

/// A move is sent on to five peers and asks no filter; anything else is sent
/// on to two.
pub proof fn law_moves_spread_further(
    class: ForwardingClass,
    cap: usize,
    bypasses: bool,
)
    requires
        call_ensures(ForwardingClass::redundancy_cap, (class,), cap),
        call_ensures(ForwardingClass::bypasses_filters, (class,), bypasses),
    ensures
        class is Move ==> cap == 5 && bypasses,
        !(class is Move) ==> cap == 2 && !bypasses,
{
}

/// A trust edge is routed by the filter of edges, and what has an author by
/// that of content.
pub proof fn law_each_class_has_its_filter(
    class: ForwardingClass,
    cf: &BloomFilter,
    ef: &BloomFilter,
    filter: &BloomFilter,
)
    requires
        !(class is Move),
        call_ensures(ForwardingClass::select_filter, (&class, cf, ef), filter),
    ensures
        class is TrustEdge ==> filter == ef,
        class is Authored ==> filter == cf,
{
}

/// The modes have their words in the store; whatever else is there reads as
/// filtered.
pub proof fn law_modes_have_their_words(
    mode: Mode,
    word: &'static str,
    s: &str,
    read: Mode,
)
    requires
        call_ensures(Mode::as_db_str, (mode,), word),
        call_ensures(Mode::from_db_str, (s,), read),
    ensures
        word@ == match mode {
            Mode::Filtered => "filtered"@,
            Mode::All => "all"@,
        },
        read is All <==> s@ == "all"@,
{
}

} // verus!
