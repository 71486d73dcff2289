//! The outbound queues: one first-in, first-out queue for each peer, with
//! caps on each of them and on all of them together.

use std::collections::VecDeque;

use vstd::prelude::*;

use crate::bytes::same_key;
use crate::federation::push;
use crate::text::same_text;

verus! {

/// How many objects one outbound request carries.
pub const MAX_CONTENT_BATCH_OUTBOUND: usize = 64;

/// The caps of the queues.
#[derive(Clone, Copy, Debug, PartialEq, Eq)]
pub struct OutboundQueueConfig {
    /// The bytes that all queues may hold together.
    pub total_bytes: usize,
    /// The bytes that one queue may hold.
    pub bytes_per_peer: usize,
    /// The objects that one queue may hold.
    pub objects_per_peer: usize,
    /// The age at which an object is no longer sent.
    pub object_max_age_ms: u64,
    /// The objects that one request carries.
    pub max_batch: usize,
}

/// An object on its way to a peer: the route that takes it, the key of the
/// list that it goes into, and its wire form.
#[derive(Debug)]
pub struct QueuedObject {
    pub path: &'static str,
    pub body_key: &'static str,
    pub wire_bytes: Vec<u8>,
    pub enqueued_at_ms: u64,
}

impl QueuedObject {
    /// The size of the object.
    pub open spec fn size(&self) -> int {
        self.wire_bytes@.len() as int
    }

    /// Whether the object is too old to be sent at `now`.
    pub open spec fn is_stale(&self, now: u64, max_age: u64) -> bool {
        now - self.enqueued_at_ms > max_age
    }

    /// Whether two objects go into the same request.
    pub open spec fn same_route(&self, other: &QueuedObject) -> bool {
        self.path@ == other.path@ && self.body_key@ == other.body_key@
    }
}

/// The size of all objects of a queue.
pub open spec fn size_of(items: Seq<QueuedObject>) -> int
    decreases items.len(),
{
    if items.len() == 0 {
        0
    } else {
        items[0].size() + size_of(items.drop_first())
    }
}

proof fn lemma_size_push(items: Seq<QueuedObject>, o: QueuedObject)
    ensures
        size_of(items.push(o)) == size_of(items) + o.size(),
    decreases items.len(),
{
    if items.len() == 0 {
        assert(items.push(o).drop_first() =~= Seq::<QueuedObject>::empty());
        assert(size_of(items.push(o).drop_first()) == 0);
    } else {
        lemma_size_push(items.drop_first(), o);
        assert(items.push(o)[0] == items[0]);
        assert(items.push(o).drop_first() =~= items.drop_first().push(o));
    }
}

proof fn lemma_size_add(a: Seq<QueuedObject>, b: Seq<QueuedObject>)
    ensures
        size_of(a + b) == size_of(a) + size_of(b),
    decreases a.len(),
{
    if a.len() == 0 {
        assert(a + b =~= b);
    } else {
        lemma_size_add(a.drop_first(), b);
        assert((a + b).drop_first() =~= a.drop_first() + b);
    }
}

proof fn lemma_size_nonnegative(items: Seq<QueuedObject>)
    ensures
        size_of(items) >= 0,
    decreases items.len(),
{
    if items.len() > 0 {
        lemma_size_nonnegative(items.drop_first());
    }
}

/// One peer's queue.
#[derive(Debug)]
pub struct PeerQueue {
    peer: [u8; 32],
    items: VecDeque<QueuedObject>,
    bytes: usize,
    worker_spawned: bool,
    in_flight: bool,
    stopped: bool,
}

/// What one peer's queue holds.
pub struct QueueView {
    pub peer: [u8; 32],
    pub items: Seq<QueuedObject>,
    pub bytes: int,
    pub worker_spawned: bool,
    pub in_flight: bool,
    pub stopped: bool,
}

impl PeerQueue {
    /// What the queue holds.
    pub closed spec fn view(&self) -> QueueView {
        QueueView {
            peer: self.peer,
            items: self.items@,
            bytes: self.bytes as int,
            worker_spawned: self.worker_spawned,
            in_flight: self.in_flight,
            stopped: self.stopped,
        }
    }
}

/// An empty queue.
pub open spec fn empty_queue(peer: [u8; 32]) -> QueueView {
    QueueView {
        peer,
        items: Seq::empty(),
        bytes: 0,
        worker_spawned: false,
        in_flight: false,
        stopped: false,
    }
}

/// A queue without its oldest object.
pub open spec fn without_oldest(q: QueueView) -> QueueView {
    QueueView { items: q.items.drop_first(), bytes: q.bytes - q.items[0].size(), ..q }
}

/// What all queues hold.
pub struct QueuesView {
    pub peers: Seq<QueueView>,
    pub total: int,
}

impl QueuesView {
    /// The state with the queue at `i` replaced and the total brought up to
    /// date.
    pub open spec fn with(self, i: int, q: QueueView) -> QueuesView {
        QueuesView {
            peers: self.peers.update(i, q),
            total: self.total - self.peers[i].bytes + q.bytes,
        }
    }

    /// Whether a peer has a queue.
    pub open spec fn has(self, peer: [u8; 32]) -> bool {
        exists|i: int| 0 <= i < self.peers.len() && (#[trigger] self.peers[i]).peer == peer
    }

    /// Where the queue of a peer is.
    pub open spec fn place(self, peer: [u8; 32]) -> int {
        choose|i: int| 0 <= i < self.peers.len() && (#[trigger] self.peers[i]).peer == peer
    }

    /// The queue of a peer, an empty one where the peer has none.
    pub open spec fn queue(self, peer: [u8; 32]) -> QueueView {
        if self.has(peer) {
            self.peers[self.place(peer)]
        } else {
            empty_queue(peer)
        }
    }
}

/// The bytes that the queues account for.
pub open spec fn bytes_of(peers: Seq<QueueView>) -> int
    decreases peers.len(),
{
    if peers.len() == 0 {
        0
    } else {
        bytes_of(peers.drop_last()) + peers.last().bytes
    }
}

/// The objects in the queues.
pub open spec fn count_of(peers: Seq<QueueView>) -> nat
    decreases peers.len(),
{
    if peers.len() == 0 {
        0
    } else {
        count_of(peers.drop_last()) + peers.last().items.len()
    }
}

/// Replacing one queue changes the sums by what that queue changes.
pub proof fn lemma_update_sums(peers: Seq<QueueView>, i: int, q: QueueView)
    requires
        0 <= i < peers.len(),
    ensures
        bytes_of(peers.update(i, q)) == bytes_of(peers) - peers[i].bytes + q.bytes,
        count_of(peers.update(i, q)) == count_of(peers) - peers[i].items.len() + q.items.len(),
    decreases peers.len(),
{
    let next = peers.update(i, q);
    if i == peers.len() - 1 {
        assert(next.drop_last() =~= peers.drop_last());
    } else {
        lemma_update_sums(peers.drop_last(), i, q);
        assert(next.drop_last() =~= peers.drop_last().update(i, q));
    }
}

proof fn lemma_remove_sums(peers: Seq<QueueView>, i: int)
    requires
        0 <= i < peers.len(),
    ensures
        bytes_of(peers.remove(i)) == bytes_of(peers) - peers[i].bytes,
    decreases peers.len(),
{
    if i == peers.len() - 1 {
        assert(peers.remove(i) =~= peers.drop_last());
    } else {
        lemma_remove_sums(peers.drop_last(), i);
        assert(peers.remove(i).drop_last() =~= peers.drop_last().remove(i));
        assert(peers.remove(i).last() == peers.last());
    }
}

proof fn lemma_one_is_part(peers: Seq<QueueView>, i: int)
    requires
        0 <= i < peers.len(),
        forall|j: int| 0 <= j < peers.len() ==> (#[trigger] peers[j]).bytes >= 0,
    ensures
        0 <= peers[i].bytes <= bytes_of(peers),
    decreases peers.len(),
{
    let front = peers.drop_last();
    assert forall|j: int| 0 <= j < front.len() implies (#[trigger] front[j]).bytes >= 0 by {
        assert(front[j] == peers[j]);
    }
    assert(peers[peers.len() - 1].bytes >= 0);
    assert(bytes_of(peers) == bytes_of(front) + peers[peers.len() - 1].bytes);
    if i < peers.len() - 1 {
        lemma_one_is_part(front, i);
        assert(front[i] == peers[i]);
    } else if front.len() > 0 {
        lemma_one_is_part(front, 0);
    }
}

/// Whether the accounts agree with the queues: no peer has two, each one
/// counts the bytes that it holds, and the total counts all of them.
pub open spec fn accounts_agree(s: QueuesView) -> bool {
    &&& forall|i: int, j: int|
        #![trigger s.peers[i], s.peers[j]]
        0 <= i < j < s.peers.len() ==> s.peers[i].peer != s.peers[j].peer
    &&& forall|i: int|
        #![trigger s.peers[i]]
        0 <= i < s.peers.len() ==> s.peers[i].bytes == size_of(s.peers[i].items)
    &&& s.total == bytes_of(s.peers)
}

/// Whether one more object of size `add` fits into a queue.
pub open spec fn fits(q: QueueView, add: int, caps: OutboundQueueConfig) -> bool {
    q.items.len() + 1 <= caps.objects_per_peer && q.bytes + add <= caps.bytes_per_peer
}

/// A queue with as few of its oldest objects dropped as it takes for one more
/// object of size `add` to fit, or with all of them.
pub open spec fn with_room(q: QueueView, add: int, caps: OutboundQueueConfig) -> QueueView
    decreases q.items.len(),
{
    if q.items.len() > 0 && !fits(q, add, caps) {
        with_room(without_oldest(q), add, caps)
    } else {
        q
    }
}

/// The bytes of the queue at `i`, where `add` more are about to join the queue
/// at `mine`.
pub open spec fn load(peers: Seq<QueueView>, i: int, mine: int, add: int) -> int {
    peers[i].bytes + (if i == mine {
        add
    } else {
        0
    })
}

/// Of the first `n` queues that hold an object, the one with the most bytes,
/// those counted that are about to join the queue at `mine`, and the last of
/// them where several have as many.
pub open spec fn largest_of(peers: Seq<QueueView>, n: int, mine: int, add: int) -> Option<int>
    decreases n,
{
    if n <= 0 {
        None
    } else {
        match largest_of(peers, n - 1, mine, add) {
            None => if peers[n - 1].items.len() > 0 {
                Some(n - 1)
            } else {
                None
            },
            Some(b) => if peers[n - 1].items.len() > 0 && load(peers, n - 1, mine, add) >= load(
                peers,
                b,
                mine,
                add,
            ) {
                Some(n - 1)
            } else {
                Some(b)
            },
        }
    }
}

/// The queue that gives up an object first: it holds one, and no queue that
/// holds one has more bytes, those counted that are about to join. There is
/// none exactly where all queues are empty.
pub proof fn law_largest_queue_gives_first(peers: Seq<QueueView>, n: int, mine: int, add: int)
    requires
        0 <= n <= peers.len(),
    ensures
        match largest_of(peers, n, mine, add) {
            Some(b) => 0 <= b < n && peers[b].items.len() > 0 && forall|j: int|
                #![trigger peers[j]]
                0 <= j < n && peers[j].items.len() > 0 ==> load(peers, j, mine, add) <= load(
                    peers,
                    b,
                    mine,
                    add,
                ),
            None => forall|j: int|
                #![trigger peers[j]]
                0 <= j < n ==> peers[j].items.len() == 0,
        },
    decreases n,
{
    if n > 0 {
        law_largest_queue_gives_first(peers, n - 1, mine, add);
    }
}

/// The queues with as few objects dropped, each one the oldest of the largest
/// queue at the time, as it takes for `add` more bytes in the queue at `mine`
/// to fit, or with all of them dropped.
pub open spec fn with_total_room(
    s: QueuesView,
    mine: int,
    add: int,
    caps: OutboundQueueConfig,
) -> QueuesView
    decreases count_of(s.peers),
{
    if s.total + add > caps.total_bytes {
        match largest_of(s.peers, s.peers.len() as int, mine, add) {
            None => s,
            Some(b) => {
                proof {
                    law_largest_queue_gives_first(s.peers, s.peers.len() as int, mine, add);
                    lemma_update_sums(s.peers, b, without_oldest(s.peers[b]));
                }
                with_total_room(s.with(b, without_oldest(s.peers[b])), mine, add, caps)
            },
        }
    } else {
        s
    }
}

/// The state in which a peer has a queue.
pub open spec fn with_peer(s: QueuesView, peer: [u8; 32]) -> QueuesView {
    if s.has(peer) {
        s
    } else {
        QueuesView { peers: s.peers.push(empty_queue(peer)), total: s.total }
    }
}

/// A queue with one more object at its end and its worker at work.
pub open spec fn with_newest(q: QueueView, o: QueuedObject) -> QueueView {
    QueueView {
        items: q.items.push(o),
        bytes: q.bytes + o.size(),
        worker_spawned: true,
        ..q
    }
}

/// The state after room was made in the queue of `peer` for an object of size
/// `add`.
pub open spec fn after_peer_room(
    s: QueuesView,
    caps: OutboundQueueConfig,
    peer: [u8; 32],
    add: int,
) -> QueuesView {
    let here = with_peer(s, peer);
    let i = here.place(peer);
    here.with(i, with_room(here.peers[i], add, caps))
}

/// Whether an object of size `add` is larger than the queue of `peer` may be
/// as a whole.
pub open spec fn too_large_for_peer(
    s: QueuesView,
    caps: OutboundQueueConfig,
    peer: [u8; 32],
    add: int,
) -> bool {
    after_peer_room(s, caps, peer, add).queue(peer).items.len() == 0 && add > caps.bytes_per_peer
}

/// The state after room was made for an object of size `add`, and whether the
/// object finds it.
pub open spec fn after_room(
    s: QueuesView,
    caps: OutboundQueueConfig,
    peer: [u8; 32],
    add: int,
) -> (QueuesView, bool) {
    let mine = after_peer_room(s, caps, peer, add);
    if too_large_for_peer(s, caps, peer, add) {
        (mine, false)
    } else {
        let all = with_total_room(mine, mine.place(peer), add, caps);
        (all, all.total + add <= caps.total_bytes)
    }
}

/// The state after an object was handed in for `peer`.
pub open spec fn after_enqueue(
    s: QueuesView,
    caps: OutboundQueueConfig,
    peer: [u8; 32],
    o: QueuedObject,
) -> QueuesView {
    let (room, found) = after_room(s, caps, peer, o.size());
    if found {
        let i = room.place(peer);
        room.with(i, with_newest(room.peers[i], o))
    } else {
        room
    }
}

/// Of `items`, what joins the batch `taken` so far and what stays: objects
/// that are too old join nothing and go; the batch ends where it is full, the
/// objects end or the route changes.
pub open spec fn taking(
    items: Seq<QueuedObject>,
    taken: Seq<QueuedObject>,
    now: u64,
    caps: OutboundQueueConfig,
) -> (Seq<QueuedObject>, Seq<QueuedObject>)
    decreases items.len(),
{
    if taken.len() >= caps.max_batch || items.len() == 0 {
        (taken, items)
    } else if items[0].is_stale(now, caps.object_max_age_ms) {
        taking(items.drop_first(), taken, now, caps)
    } else if taken.len() > 0 && !taken[0].same_route(&items[0]) {
        (taken, items)
    } else {
        taking(items.drop_first(), taken.push(items[0]), now, caps)
    }
}

/// The next batch of a queue, and what stays in it.
pub open spec fn batch_of(items: Seq<QueuedObject>, now: u64, caps: OutboundQueueConfig) -> (
    Seq<QueuedObject>,
    Seq<QueuedObject>,
) {
    taking(items, Seq::empty(), now, caps)
}

/// The state after a batch was taken off the queue of `peer`.
pub open spec fn after_take(
    s: QueuesView,
    peer: [u8; 32],
    now: u64,
    caps: OutboundQueueConfig,
) -> QueuesView {
    if s.has(peer) {
        let q = s.queue(peer);
        let (batch, rest) = batch_of(q.items, now, caps);
        s.with(
            s.place(peer),
            QueueView {
                items: rest,
                bytes: size_of(rest),
                in_flight: q.in_flight || batch.len() > 0,
                ..q
            },
        )
    } else {
        s
    }
}

/// A queue with a batch back at its head.
pub open spec fn with_front(q: QueueView, batch: Seq<QueuedObject>) -> QueueView {
    QueueView { items: batch + q.items, bytes: q.bytes + size_of(batch), ..q }
}

proof fn lemma_with_keeps_accounts(s: QueuesView, i: int, q: QueueView)
    requires
        accounts_agree(s),
        0 <= i < s.peers.len(),
        q.peer == s.peers[i].peer,
        q.bytes == size_of(q.items),
    ensures
        accounts_agree(s.with(i, q)),
{
    lemma_update_sums(s.peers, i, q);
    let t = s.with(i, q);
    assert forall|j: int, k: int|
        #![trigger t.peers[j], t.peers[k]]
        0 <= j < k < t.peers.len() implies t.peers[j].peer != t.peers[k].peer by {
        assert(t.peers[j].peer == s.peers[j].peer);
        assert(t.peers[k].peer == s.peers[k].peer);
    }
    assert forall|j: int| #![trigger t.peers[j]] 0 <= j < t.peers.len() implies t.peers[j].bytes
        == size_of(t.peers[j].items) by {
        if j != i {
            assert(t.peers[j] == s.peers[j]);
        }
    }
}

proof fn lemma_place_is(s: QueuesView, i: int)
    requires
        accounts_agree(s),
        0 <= i < s.peers.len(),
    ensures
        s.has(s.peers[i].peer),
        s.place(s.peers[i].peer) == i,
{
    let peer = s.peers[i].peer;
    assert(s.peers[i].peer == peer);
    assert(s.has(peer));
    assert(s.peers[s.place(peer)].peer == peer);
}

proof fn lemma_bytes_within_total(s: QueuesView, i: int)
    requires
        accounts_agree(s),
        0 <= i < s.peers.len(),
    ensures
        0 <= s.peers[i].bytes <= s.total,
{
    assert forall|j: int| 0 <= j < s.peers.len() implies (#[trigger] s.peers[j]).bytes >= 0 by {
        lemma_size_nonnegative(s.peers[j].items);
    }
    lemma_one_is_part(s.peers, i);
}

/// What became of an object that was handed in.
#[derive(Clone, Copy, Debug, PartialEq, Eq)]
pub struct Enqueued {
    /// The object is in the queue; otherwise it was dropped.
    pub accepted: bool,
    /// The queue has no worker yet and needs one.
    pub spawn_worker: bool,
}

/// The outbound queues.
#[derive(Debug)]
pub struct OutboundQueues {
    peers: Vec<PeerQueue>,
    total_bytes: usize,
    config: OutboundQueueConfig,
}

impl OutboundQueues {
    /// What the queues hold.
    pub closed spec fn view(&self) -> QueuesView {
        QueuesView {
            peers: Seq::new(self.peers@.len(), |i: int| self.peers@[i]@),
            total: self.total_bytes as int,
        }
    }

    /// The caps of the queues.
    pub closed spec fn caps(&self) -> OutboundQueueConfig {
        self.config
    }

    /// The accounts agree with the queues.
    pub open spec fn wf(&self) -> bool {
        accounts_agree(self@)
    }

    /// Queues with the given caps, for no peer yet.
    pub fn new(config: OutboundQueueConfig) -> (queues: Self)
        ensures
            queues.wf(),
            queues@.peers == Seq::<QueueView>::empty(),
            queues@.total == 0,
            queues.caps() == config,
    {
        let queues = OutboundQueues { peers: Vec::new(), total_bytes: 0, config };
        assert(queues@.peers =~= Seq::<QueueView>::empty());
        queues
    }

    fn find(&self, peer: &[u8; 32]) -> (place: Option<usize>)
        requires
            self.wf(),
        ensures
            match place {
                Some(i) => i < self.peers@.len() && self@.has(*peer) && self@.place(*peer) == i
                    && self@.peers[i as int].peer == *peer,
                None => !self@.has(*peer),
            },
    {
        let mut i: usize = 0;
        while i < self.peers.len()
            invariant
                i <= self.peers.len(),
                self.wf(),
                forall|j: int| 0 <= j < i ==> (#[trigger] self@.peers[j]).peer != *peer,
            decreases self.peers.len() - i,
        {
            if same_key(&self.peers[i].peer, peer) {
                assert(self@.peers[i as int].peer == *peer);
                proof {
                    lemma_place_is(self@, i as int);
                }
                return Some(i);
            }
            assert(self@.peers[i as int].peer != *peer);
            i += 1;
        }
        None
    }

    /// The number of objects and of bytes that wait for a peer.
    pub fn depth_for(&self, peer: &[u8; 32]) -> (depth: (usize, usize))
        requires
            self.wf(),
        ensures
            depth.0 == self@.queue(*peer).items.len(),
            depth.1 == self@.queue(*peer).bytes,
    {
        match self.find(peer) {
            Some(i) => {
                assert(self@.peers[i as int] == self.peers@[i as int]@);
                (self.peers[i].items.len(), self.peers[i].bytes)
            },
            None => (0, 0),
        }
    }

    /// The bytes that wait for all peers together.
    pub fn total_bytes(&self) -> (bytes: usize)
        ensures
            bytes == self@.total,
    {
        self.total_bytes
    }

    /// Whether nothing waits and nothing is on its way.
    pub fn is_idle_now(&self) -> (idle: bool)
        ensures
            idle == (forall|i: int|
                0 <= i < self@.peers.len() ==> (#[trigger] self@.peers[i]).items.len() == 0
                    && !self@.peers[i].in_flight),
    {
        let mut i: usize = 0;
        while i < self.peers.len()
            invariant
                i <= self.peers.len(),
                forall|j: int|
                    0 <= j < i ==> (#[trigger] self@.peers[j]).items.len() == 0
                        && !self@.peers[j].in_flight,
            decreases self.peers.len() - i,
        {
            assert(self@.peers[i as int] == self.peers@[i as int]@);
            if self.peers[i].items.len() != 0 || self.peers[i].in_flight {
                return false;
            }
            i += 1;
        }
        true
    }

    fn drop_oldest(&mut self, i: usize)
        requires
            old(self).wf(),
            i < old(self)@.peers.len(),
            old(self)@.peers[i as int].items.len() > 0,
        ensures
            final(self).wf(),
            final(self).caps() == old(self).caps(),
            final(self)@ == old(self)@.with(
                i as int,
                without_oldest(old(self)@.peers[i as int]),
            ),
    {
        let ghost s = self@;
        let ghost q = without_oldest(s.peers[i as int]);
        proof {
            lemma_bytes_within_total(s, i as int);
            lemma_size_nonnegative(s.peers[i as int].items.drop_first());
            lemma_with_keeps_accounts(s, i as int, q);
            assert(s.peers[i as int] == self.peers@[i as int]@);
        }
        if let Some(oldest) = self.peers[i].items.pop_front() {
            let n: usize = oldest.wire_bytes.len();
            self.peers[i].bytes = self.peers[i].bytes - n;
            self.total_bytes = self.total_bytes - n;
        }
        assert(self.peers@[i as int]@.items =~= q.items);
        assert(self@.peers =~= s.with(i as int, q).peers);
    }

    fn load_of(&self, i: usize, mine: usize, add: usize) -> (bytes: u128)
        requires
            i < self@.peers.len(),
        ensures
            bytes == load(self@.peers, i as int, mine as int, add as int),
    {
        assert(self@.peers[i as int] == self.peers@[i as int]@);
        if i == mine {
            self.peers[i].bytes as u128 + add as u128
        } else {
            self.peers[i].bytes as u128
        }
    }

    fn largest(&self, mine: usize, add: usize) -> (place: Option<usize>)
        ensures
            match place {
                Some(b) => largest_of(
                    self@.peers,
                    self@.peers.len() as int,
                    mine as int,
                    add as int,
                ) == Some(b as int),
                None => largest_of(
                    self@.peers,
                    self@.peers.len() as int,
                    mine as int,
                    add as int,
                ) is None,
            },
    {
        let mut best: Option<usize> = None;
        let mut i: usize = 0;
        while i < self.peers.len()
            invariant
                i <= self.peers.len(),
                match best {
                    Some(b) => b < i && largest_of(self@.peers, i as int, mine as int, add as int)
                        == Some(b as int),
                    None => largest_of(self@.peers, i as int, mine as int, add as int) is None,
                },
            decreases self.peers.len() - i,
        {
            assert(self@.peers[i as int] == self.peers@[i as int]@);
            if self.peers[i].items.len() > 0 {
                match best {
                    None => {
                        best = Some(i);
                    },
                    Some(b) => {
                        if self.load_of(i, mine, add) >= self.load_of(b, mine, add) {
                            best = Some(i);
                        }
                    },
                }
            }
            i += 1;
        }
        best
    }

    fn ensure_peer(&mut self, peer: [u8; 32]) -> (place: usize)
        requires
            old(self).wf(),
        ensures
            final(self).wf(),
            final(self).caps() == old(self).caps(),
            final(self)@ == with_peer(old(self)@, peer),
            place < final(self)@.peers.len(),
            final(self)@.peers[place as int].peer == peer,
            final(self)@.place(peer) == place,
    {
        match self.find(&peer) {
            Some(i) => i,
            None => {
                let ghost s = self@;
                let queue = PeerQueue {
                    peer,
                    items: VecDeque::new(),
                    bytes: 0,
                    worker_spawned: false,
                    in_flight: false,
                    stopped: false,
                };
                let place: usize = self.peers.len();
                self.peers.push(queue);
                proof {
                    assert(queue@.items =~= Seq::<QueuedObject>::empty());
                    assert(self@.peers =~= s.peers.push(empty_queue(peer)));
                    let t = self@;
                    assert(t.peers.drop_last() =~= s.peers);
                    assert forall|j: int, k: int|
                        #![trigger t.peers[j], t.peers[k]]
                        0 <= j < k < t.peers.len() implies t.peers[j].peer != t.peers[k].peer by {
                        assert(t.peers[j] == s.peers[j]);
                        if k < s.peers.len() {
                            assert(t.peers[k] == s.peers[k]);
                        }
                    }
                    assert forall|j: int| #![trigger t.peers[j]] 0 <= j < t.peers.len() implies
                        t.peers[j].bytes == size_of(t.peers[j].items) by {
                        if j < s.peers.len() {
                            assert(t.peers[j] == s.peers[j]);
                        }
                    }
                    lemma_place_is(t, place as int);
                }
                place
            },
        }
    }

    /// Hands in an object for `peer` at `now_ms`. Where a cap would be
    /// exceeded, the oldest objects go first: those of the peer until its
    /// queue has room, then those of the largest queue, the object counted,
    /// until all of them have room together. The object itself is dropped where even that is not
    /// enough.
    pub fn enqueue(
        &mut self,
        peer: [u8; 32],
        path: &'static str,
        body_key: &'static str,
        wire_bytes: Vec<u8>,
        now_ms: u64,
    ) -> (outcome: Enqueued)
        requires
            old(self).wf(),
        ensures
            final(self).wf(),
            final(self).caps() == old(self).caps(),
            final(self)@ == after_enqueue(
                old(self)@,
                old(self).caps(),
                peer,
                QueuedObject { path, body_key, wire_bytes, enqueued_at_ms: now_ms },
            ),
            outcome.accepted == after_room(
                old(self)@,
                old(self).caps(),
                peer,
                wire_bytes@.len() as int,
            ).1,
            outcome.spawn_worker == (outcome.accepted && !old(self)@.queue(peer).worker_spawned),
    {
        let caps: OutboundQueueConfig = self.config;
        let add: usize = wire_bytes.len();
        let object = QueuedObject { path, body_key, wire_bytes, enqueued_at_ms: now_ms };
        let ghost first = self@;
        let i: usize = self.ensure_peer(peer);
        let ghost here = self@;
        let ghost spawned = here.peers[i as int].worker_spawned;
        proof {
            if first.has(peer) {
                assert(first.place(peer) == i);
            }
            assert(spawned == first.queue(peer).worker_spawned);
            assert(here.with(i as int, here.peers[i as int]).peers =~= here.peers);
        }
        let ghost mine = after_peer_room(first, caps, peer, add as int);
        while self.peers[i].items.len() > 0 && (self.peers[i].items.len() >= caps.objects_per_peer
            || self.peers[i].bytes > caps.bytes_per_peer || add > caps.bytes_per_peer
            - self.peers[i].bytes)
            invariant
                self.wf(),
                self.caps() == caps,
                i < self@.peers.len(),
                self@.peers.len() == self.peers@.len(),
                self@.peers[i as int] == self.peers@[i as int]@,
                self@.peers[i as int].peer == peer,
                self@.peers[i as int].worker_spawned == spawned,
                self@.with(i as int, with_room(self@.peers[i as int], add as int, caps)) == mine,
            decreases self@.peers[i as int].items.len(),
        {
            let ghost was = self@;
            self.drop_oldest(i);
            assert(self@.peers[i as int] == without_oldest(was.peers[i as int]));
            assert(self@.with(
                i as int,
                with_room(self@.peers[i as int], add as int, caps),
            ).peers =~= mine.peers);
        }
        proof {
            assert(with_room(self@.peers[i as int], add as int, caps) == self@.peers[i as int]);
            assert(self@.with(i as int, self@.peers[i as int]).peers =~= self@.peers);
            assert(self@ == mine);
            lemma_place_is(self@, i as int);
        }
        if self.peers[i].items.len() == 0 && add > caps.bytes_per_peer {
            return Enqueued { accepted: false, spawn_worker: false };
        }
        let ghost all = with_total_room(mine, i as int, add as int, caps);
        while self.total_bytes > caps.total_bytes || add > caps.total_bytes - self.total_bytes
            invariant
                self.wf(),
                self.caps() == caps,
                i < self@.peers.len(),
                self@.peers.len() == self.peers@.len(),
                self@.total == self.total_bytes,
                self@.peers[i as int].peer == peer,
                self@.peers[i as int].worker_spawned == spawned,
                with_total_room(self@, i as int, add as int, caps) == all,
                !too_large_for_peer(first, caps, peer, add as int),
                after_peer_room(first, caps, peer, add as int).place(peer) == i,
                all == with_total_room(
                    after_peer_room(first, caps, peer, add as int),
                    i as int,
                    add as int,
                    caps,
                ),
                first == old(self)@,
                caps == old(self).caps(),
                add == object.wire_bytes@.len(),
                object == (QueuedObject { path, body_key, wire_bytes, enqueued_at_ms: now_ms }),
            decreases count_of(self@.peers),
        {
            match self.largest(i, add) {
                None => {
                    return Enqueued { accepted: false, spawn_worker: false };
                },
                Some(b) => {
                    let ghost was = self@;
                    proof {
                        law_largest_queue_gives_first(
                            was.peers,
                            was.peers.len() as int,
                            i as int,
                            add as int,
                        );
                        lemma_update_sums(was.peers, b as int, without_oldest(was.peers[b as int]));
                    }
                    self.drop_oldest(b);
                },
            }
        }
        let ghost room = self@;
        proof {
            assert(room == all);
            lemma_place_is(room, i as int);
            lemma_bytes_within_total(room, i as int);
            lemma_size_push(room.peers[i as int].items, object);
            lemma_with_keeps_accounts(room, i as int, with_newest(room.peers[i as int], object));
            assert(room.peers[i as int] == self.peers@[i as int]@);
        }
        let spawn_worker: bool = !self.peers[i].worker_spawned;
        self.peers[i].items.push_back(object);
        self.peers[i].bytes = self.peers[i].bytes + add;
        self.peers[i].worker_spawned = true;
        self.total_bytes = self.total_bytes + add;
        proof {
            let q = with_newest(room.peers[i as int], object);
            assert(self.peers@[i as int]@.items =~= q.items);
            assert(self@.peers =~= room.with(i as int, q).peers);
        }
        Enqueued { accepted: true, spawn_worker }
    }

    /// Takes the next batch for `peer` off its queue at `now_ms`: objects of
    /// one route, in order, no more than fit into one request. Objects that
    /// are too old are dropped on the way.
    pub fn take_batch(&mut self, peer: [u8; 32], now_ms: u64) -> (batch: Vec<QueuedObject>)
        requires
            old(self).wf(),
        ensures
            final(self).wf(),
            final(self).caps() == old(self).caps(),
            batch@ == batch_of(old(self)@.queue(peer).items, now_ms, old(self).caps()).0,
            final(self)@ == after_take(old(self)@, peer, now_ms, old(self).caps()),
    {
        let caps: OutboundQueueConfig = self.config;
        let mut batch: Vec<QueuedObject> = Vec::new();
        let i: usize = match self.find(&peer) {
            Some(i) => i,
            None => {
                assert(batch@ =~= Seq::<QueuedObject>::empty());
                return batch;
            },
        };
        let ghost first = self@;
        let ghost all = first.peers[i as int].items;
        let ghost goal = batch_of(all, now_ms, caps);
        assert(batch@ =~= Seq::<QueuedObject>::empty());
        assert(first.with(i as int, first.peers[i as int]).peers =~= first.peers);
        while batch.len() < caps.max_batch && self.peers[i].items.len() > 0
            invariant_except_break
                taking(self@.peers[i as int].items, batch@, now_ms, caps) == goal,
            invariant
                self.wf(),
                self.caps() == caps,
                i < self@.peers.len(),
                self@.peers.len() == self.peers@.len(),
                self@.peers[i as int] == self.peers@[i as int]@,
                ({
                    let q = self@.peers[i as int];
                    let f = first.peers[i as int];
                    &&& q.peer == f.peer && q.worker_spawned == f.worker_spawned && q.in_flight
                        == f.in_flight && q.stopped == f.stopped
                }),
                first.with(i as int, self@.peers[i as int]) == self@,
                accounts_agree(first),
                i < first.peers.len(),
            ensures
                batch@ == goal.0,
                self@.peers[i as int].items == goal.1,
            decreases self@.peers[i as int].items.len(),
        {
            let ghost was = self@;
            proof {
                lemma_bytes_within_total(was, i as int);
                lemma_size_nonnegative(was.peers[i as int].items.drop_first());
                lemma_with_keeps_accounts(
                    was,
                    i as int,
                    without_oldest(was.peers[i as int]),
                );
            }
            if now_ms.saturating_sub(self.peers[i].items[0].enqueued_at_ms)
                > caps.object_max_age_ms {
                self.drop_oldest(i);
                assert(first.with(i as int, self@.peers[i as int]).peers =~= self@.peers);
                continue;
            }
            if batch.len() > 0 {
                let same: bool = same_text(batch[0].path, self.peers[i].items[0].path)
                    && same_text(batch[0].body_key, self.peers[i].items[0].body_key);
                if !same {
                    break;
                }
            }
            if let Some(oldest) = self.peers[i].items.pop_front() {
                let n: usize = oldest.wire_bytes.len();
                self.peers[i].bytes = self.peers[i].bytes - n;
                self.total_bytes = self.total_bytes - n;
                batch.push(oldest);
            }
            proof {
                let q = without_oldest(was.peers[i as int]);
                assert(self.peers@[i as int]@.items =~= q.items);
                assert(self@.peers =~= was.with(i as int, q).peers);
                assert(first.with(i as int, self@.peers[i as int]).peers =~= self@.peers);
            }
        }
        if batch.len() > 0 {
            let ghost was = self@;
            proof {
                let q = QueueView { in_flight: true, ..was.peers[i as int] };
                lemma_with_keeps_accounts(was, i as int, q);
            }
            self.peers[i].in_flight = true;
            proof {
                let q = QueueView { in_flight: true, ..was.peers[i as int] };
                assert(self@.peers =~= was.with(i as int, q).peers);
            }
        }
        assert(self@.peers =~= after_take(first, peer, now_ms, caps).peers);
        batch
    }

    /// Puts a batch that could not be delivered back at the head of the queue
    /// of `peer`, in its old order.
    pub fn requeue_front(&mut self, peer: [u8; 32], batch: Vec<QueuedObject>)
        requires
            old(self).wf(),
            old(self)@.total + size_of(batch@) <= usize::MAX,
        ensures
            final(self).wf(),
            final(self).caps() == old(self).caps(),
            final(self)@ == (if old(self)@.has(peer) {
                old(self)@.with(
                    old(self)@.place(peer),
                    with_front(old(self)@.queue(peer), batch@),
                )
            } else {
                old(self)@
            }),
    {
        let i: usize = match self.find(&peer) {
            Some(i) => i,
            None => return ,
        };
        let ghost first = self@;
        let ghost all = batch@;
        let mut rest: Vec<QueuedObject> = batch;
        assert(all.skip(all.len() as int) =~= Seq::<QueuedObject>::empty());
        assert(with_front(first.peers[i as int], Seq::empty()).items
            =~= first.peers[i as int].items);
        assert(first.with(i as int, first.peers[i as int]).peers =~= first.peers);
        assert(all.take(all.len() as int) =~= all);
        while rest.len() > 0
            invariant
                self.wf(),
                self.caps() == old(self).caps(),
                i < first.peers.len(),
                i < self@.peers.len(),
                self@.peers.len() == self.peers@.len(),
                rest@.len() <= all.len(),
                rest@ == all.take(rest@.len() as int),
                first.total + size_of(all) <= usize::MAX,
                self@ == first.with(
                    i as int,
                    with_front(first.peers[i as int], all.skip(rest@.len() as int)),
                ),
            decreases rest@.len(),
        {
            let ghost was = self@;
            let ghost n = rest@.len() as int;
            if let Some(item) = rest.pop() {
                let size: usize = item.wire_bytes.len();
                let ghost q = with_front(was.peers[i as int], seq![item]);
                proof {
                    assert(item == all[n - 1]);
                    assert(rest@ =~= all.take(n - 1));
                    assert(all =~= all.take(n - 1) + (seq![item] + all.skip(n)));
                    lemma_size_add(all.take(n - 1), seq![item] + all.skip(n));
                    lemma_size_add(seq![item], all.skip(n));
                    lemma_size_nonnegative(all.take(n - 1));
                    assert(seq![item].drop_first() =~= Seq::<QueuedObject>::empty());
                    assert(size_of(seq![item].drop_first()) == 0);
                    assert(size_of(seq![item]) == item.size());
                    lemma_size_add(seq![item], was.peers[i as int].items);
                    lemma_with_keeps_accounts(was, i as int, q);
                    lemma_bytes_within_total(was, i as int);
                    assert(was.peers[i as int] == self.peers@[i as int]@);
                }
                self.peers[i].items.push_front(item);
                self.peers[i].bytes = self.peers[i].bytes + size;
                self.total_bytes = self.total_bytes + size;
                proof {
                    assert(self.peers@[i as int]@.items =~= q.items);
                    assert(self@.peers =~= was.with(i as int, q).peers);
                    assert(all.skip(n - 1) =~= seq![item] + all.skip(n));
                    assert(q.items =~= with_front(
                        first.peers[i as int],
                        all.skip(n - 1),
                    ).items);
                    assert(self@.peers =~= first.with(
                        i as int,
                        with_front(first.peers[i as int], all.skip(n - 1)),
                    ).peers);
                }
            }
        }
        assert(all.skip(0) =~= all);
    }

    /// Notes that nothing is on its way to `peer` any more.
    pub fn mark_in_flight_false(&mut self, peer: &[u8; 32])
        requires
            old(self).wf(),
        ensures
            final(self).wf(),
            final(self).caps() == old(self).caps(),
            final(self)@ == (if old(self)@.has(*peer) {
                old(self)@.with(
                    old(self)@.place(*peer),
                    QueueView { in_flight: false, ..old(self)@.queue(*peer) },
                )
            } else {
                old(self)@
            }),
    {
        if let Some(i) = self.find(peer) {
            let ghost s = self@;
            let ghost q = QueueView { in_flight: false, ..s.peers[i as int] };
            proof {
                lemma_with_keeps_accounts(s, i as int, q);
            }
            self.peers[i].in_flight = false;
            assert(self@.peers =~= s.with(i as int, q).peers);
        }
    }

    /// Marks the queue of a peer that is no longer one, so that its worker
    /// takes it down.
    pub fn drop_peer(&mut self, peer: &[u8; 32]) -> (found: bool)
        requires
            old(self).wf(),
        ensures
            final(self).wf(),
            final(self).caps() == old(self).caps(),
            found == old(self)@.has(*peer),
            final(self)@ == (if old(self)@.has(*peer) {
                old(self)@.with(
                    old(self)@.place(*peer),
                    QueueView { stopped: true, ..old(self)@.queue(*peer) },
                )
            } else {
                old(self)@
            }),
    {
        match self.find(peer) {
            Some(i) => {
                let ghost s = self@;
                let ghost q = QueueView { stopped: true, ..s.peers[i as int] };
                proof {
                    lemma_with_keeps_accounts(s, i as int, q);
                }
                self.peers[i].stopped = true;
                assert(self@.peers =~= s.with(i as int, q).peers);
                true
            },
            None => false,
        }
    }

    /// Takes down the queue of `peer` if it is marked, and tells whether the
    /// peer has no queue any more.
    pub fn check_and_remove_if_stopped(&mut self, peer: &[u8; 32]) -> (gone: bool)
        requires
            old(self).wf(),
        ensures
            final(self).wf(),
            final(self).caps() == old(self).caps(),
            gone == (!old(self)@.has(*peer) || old(self)@.queue(*peer).stopped),
            gone ==> !final(self)@.has(*peer),
            final(self)@ == (if old(self)@.has(*peer) && old(self)@.queue(*peer).stopped {
                QueuesView {
                    peers: old(self)@.peers.remove(old(self)@.place(*peer)),
                    total: old(self)@.total - old(self)@.queue(*peer).bytes,
                }
            } else {
                old(self)@
            }),
    {
        let i: usize = match self.find(peer) {
            Some(i) => i,
            None => return true,
        };
        assert(self@.peers[i as int] == self.peers@[i as int]@);
        if !self.peers[i].stopped {
            return false;
        }
        let ghost s = self@;
        let bytes: usize = self.peers[i].bytes;
        proof {
            lemma_bytes_within_total(s, i as int);
            lemma_remove_sums(s.peers, i as int);
        }
        self.total_bytes = self.total_bytes - bytes;
        let _gone: PeerQueue = self.peers.remove(i);
        proof {
            let t = self@;
            assert(t.peers =~= s.peers.remove(i as int));
            assert forall|j: int| 0 <= j < t.peers.len() implies #[trigger] t.peers[j]
                == s.peers[if j < i {
                j
            } else {
                j + 1
            }] by {}
            assert forall|j: int, k: int|
                #![trigger t.peers[j], t.peers[k]]
                0 <= j < k < t.peers.len() implies t.peers[j].peer != t.peers[k].peer by {
                let a = if j < i {
                    j
                } else {
                    j + 1
                };
                let b = if k < i {
                    k
                } else {
                    k + 1
                };
                assert(s.peers[a].peer != s.peers[b].peer);
            }
            if t.has(*peer) {
                let j = t.place(*peer);
                let a = if j < i {
                    j
                } else {
                    j + 1
                };
                assert(s.peers[a].peer == *peer);
                assert(s.peers[i as int].peer == *peer);
            }
        }
        true
    }
}

// ---------------------------------------------------------------------------
// What the queues promise
// ---------------------------------------------------------------------------

/// Whether `a` is what is left of `b` after some of its oldest objects went.
pub open spec fn is_tail(a: Seq<QueuedObject>, b: Seq<QueuedObject>) -> bool {
    a.len() <= b.len() && a == b.skip(b.len() - a.len())
}

proof fn lemma_tail_of_tail(a: Seq<QueuedObject>, b: Seq<QueuedObject>, c: Seq<QueuedObject>)
    requires
        is_tail(a, b),
        is_tail(b, c),
    ensures
        is_tail(a, c),
{
    assert(b.skip(b.len() - a.len()) =~= c.skip(c.len() - a.len()));
}

/// Whether `t` is `s` with nothing but oldest objects dropped.
pub open spec fn only_oldest_went(s: QueuesView, t: QueuesView) -> bool {
    &&& t.peers.len() == s.peers.len()
    &&& forall|i: int|
        #![trigger t.peers[i]]
        #![trigger s.peers[i]]
        0 <= i < s.peers.len() ==> t.peers[i].peer == s.peers[i].peer && t.peers[i].worker_spawned
            == s.peers[i].worker_spawned && t.peers[i].in_flight == s.peers[i].in_flight
            && t.peers[i].stopped == s.peers[i].stopped && t.peers[i].bytes <= s.peers[i].bytes
            && is_tail(t.peers[i].items, s.peers[i].items)
}

proof fn lemma_only_oldest_transitive(s: QueuesView, t: QueuesView, u: QueuesView)
    requires
        only_oldest_went(s, t),
        only_oldest_went(t, u),
    ensures
        only_oldest_went(s, u),
{
    assert forall|i: int|
        #![trigger u.peers[i]]
        #![trigger s.peers[i]]
        0 <= i < s.peers.len() implies u.peers[i].peer == s.peers[i].peer
        && u.peers[i].worker_spawned == s.peers[i].worker_spawned && u.peers[i].in_flight
        == s.peers[i].in_flight && u.peers[i].stopped == s.peers[i].stopped && u.peers[i].bytes
        <= s.peers[i].bytes && is_tail(u.peers[i].items, s.peers[i].items) by {
        assert(t.peers[i].peer == s.peers[i].peer);
        assert(u.peers[i].peer == t.peers[i].peer);
        lemma_tail_of_tail(u.peers[i].items, t.peers[i].items, s.peers[i].items);
    }
}

proof fn lemma_only_oldest_reflexive(s: QueuesView)
    ensures
        only_oldest_went(s, s),
{
    assert forall|i: int| 0 <= i < s.peers.len() implies is_tail(
        (#[trigger] s.peers[i]).items,
        s.peers[i].items,
    ) by {
        assert(s.peers[i].items.skip(0) =~= s.peers[i].items);
    }
}

proof fn lemma_without_oldest(s: QueuesView, i: int)
    requires
        accounts_agree(s),
        0 <= i < s.peers.len(),
        s.peers[i].items.len() > 0,
    ensures
        accounts_agree(s.with(i, without_oldest(s.peers[i]))),
        only_oldest_went(s, s.with(i, without_oldest(s.peers[i]))),
{
    let q = without_oldest(s.peers[i]);
    let t = s.with(i, q);
    lemma_with_keeps_accounts(s, i, q);
    assert(q.items =~= s.peers[i].items.skip(1));
    lemma_only_oldest_reflexive(s);
    assert forall|j: int|
        #![trigger t.peers[j]]
        #![trigger s.peers[j]]
        0 <= j < s.peers.len() implies t.peers[j].peer == s.peers[j].peer
        && t.peers[j].worker_spawned == s.peers[j].worker_spawned && t.peers[j].in_flight
        == s.peers[j].in_flight && t.peers[j].stopped == s.peers[j].stopped && t.peers[j].bytes
        <= s.peers[j].bytes && is_tail(t.peers[j].items, s.peers[j].items) by {
        if j != i {
            assert(t.peers[j] == s.peers[j]);
            assert(s.peers[j].items.skip(0) =~= s.peers[j].items);
        }
    }
}

proof fn lemma_empty_queues_hold_nothing(peers: Seq<QueueView>)
    requires
        forall|j: int|
            #![trigger peers[j]]
            0 <= j < peers.len() ==> peers[j].items.len() == 0 && peers[j].bytes == size_of(
                peers[j].items,
            ),
    ensures
        bytes_of(peers) == 0,
    decreases peers.len(),
{
    if peers.len() > 0 {
        let rest = peers.drop_last();
        assert forall|j: int| #![trigger rest[j]] 0 <= j < rest.len() implies rest[j].items.len()
            == 0 && rest[j].bytes == size_of(rest[j].items) by {
            assert(rest[j] == peers[j]);
        }
        lemma_empty_queues_hold_nothing(rest);
        assert(peers.last() == peers[peers.len() - 1]);
    }
}

proof fn lemma_total_room(s: QueuesView, mine: int, add: int, caps: OutboundQueueConfig)
    requires
        accounts_agree(s),
    ensures
        accounts_agree(with_total_room(s, mine, add, caps)),
        only_oldest_went(s, with_total_room(s, mine, add, caps)),
        s.total + add <= caps.total_bytes ==> with_total_room(s, mine, add, caps) == s,
        add <= caps.total_bytes ==> with_total_room(s, mine, add, caps).total + add
            <= caps.total_bytes,
    decreases count_of(s.peers),
{
    lemma_only_oldest_reflexive(s);
    if s.total + add > caps.total_bytes {
        law_largest_queue_gives_first(s.peers, s.peers.len() as int, mine, add);
        match largest_of(s.peers, s.peers.len() as int, mine, add) {
            Some(b) => {
                let q = without_oldest(s.peers[b]);
                let t = s.with(b, q);
                lemma_update_sums(s.peers, b, q);
                lemma_without_oldest(s, b);
                lemma_total_room(t, mine, add, caps);
                lemma_only_oldest_transitive(s, t, with_total_room(t, mine, add, caps));
            },
            None => {
                lemma_empty_queues_hold_nothing(s.peers);
            },
        }
    }
}

proof fn lemma_peer_room(q: QueueView, add: int, caps: OutboundQueueConfig)
    requires
        q.bytes == size_of(q.items),
    ensures
        ({
            let r = with_room(q, add, caps);
            &&& r.bytes == size_of(r.items)
            &&& r.bytes <= q.bytes
            &&& is_tail(r.items, q.items)
            &&& r.items.len() == 0 || fits(r, add, caps)
            &&& fits(q, add, caps) ==> r == q
            &&& r.peer == q.peer && r.worker_spawned == q.worker_spawned && r.in_flight
                == q.in_flight && r.stopped == q.stopped
        }),
    decreases q.items.len(),
{
    assert(q.items.skip(0) =~= q.items);
    if q.items.len() > 0 && !fits(q, add, caps) {
        let p = without_oldest(q);
        lemma_peer_room(p, add, caps);
        assert(p.items =~= q.items.skip(1));
        lemma_tail_of_tail(with_room(p, add, caps).items, p.items, q.items);
    }
}

proof fn lemma_with_peer(s: QueuesView, peer: [u8; 32])
    requires
        accounts_agree(s),
    ensures
        accounts_agree(with_peer(s, peer)),
        with_peer(s, peer).has(peer),
        with_peer(s, peer).queue(peer) == s.queue(peer),
        0 <= with_peer(s, peer).place(peer) < with_peer(s, peer).peers.len(),
{
    let t = with_peer(s, peer);
    if !s.has(peer) {
        assert(t.peers.drop_last() =~= s.peers);
        assert forall|j: int, k: int|
            #![trigger t.peers[j], t.peers[k]]
            0 <= j < k < t.peers.len() implies t.peers[j].peer != t.peers[k].peer by {
            assert(t.peers[j] == s.peers[j]);
            if k < s.peers.len() {
                assert(t.peers[k] == s.peers[k]);
            }
        }
        assert forall|j: int| #![trigger t.peers[j]] 0 <= j < t.peers.len() implies
            t.peers[j].bytes == size_of(t.peers[j].items) by {
            if j < s.peers.len() {
                assert(t.peers[j] == s.peers[j]);
            }
        }
        lemma_place_is(t, s.peers.len() as int);
    }
}

proof fn lemma_after_peer_room(s: QueuesView, caps: OutboundQueueConfig, peer: [u8; 32], add: int)
    requires
        accounts_agree(s),
    ensures
        ({
            let here = with_peer(s, peer);
            let mine = after_peer_room(s, caps, peer, add);
            &&& accounts_agree(mine)
            &&& only_oldest_went(here, mine)
            &&& mine.has(peer)
            &&& mine.place(peer) == here.place(peer)
            &&& mine.queue(peer) == with_room(s.queue(peer), add, caps)
        }),
{
    let here = with_peer(s, peer);
    lemma_with_peer(s, peer);
    let i = here.place(peer);
    let r = with_room(here.peers[i], add, caps);
    lemma_peer_room(here.peers[i], add, caps);
    lemma_with_keeps_accounts(here, i, r);
    let mine = here.with(i, r);
    lemma_place_is(mine, i);
    assert forall|j: int|
        #![trigger mine.peers[j]]
        #![trigger here.peers[j]]
        0 <= j < here.peers.len() implies mine.peers[j].peer == here.peers[j].peer
        && mine.peers[j].worker_spawned == here.peers[j].worker_spawned && mine.peers[j].in_flight
        == here.peers[j].in_flight && mine.peers[j].stopped == here.peers[j].stopped
        && mine.peers[j].bytes <= here.peers[j].bytes && is_tail(
        mine.peers[j].items,
        here.peers[j].items,
    ) by {
        if j != i {
            assert(mine.peers[j] == here.peers[j]);
            assert(here.peers[j].items.skip(0) =~= here.peers[j].items);
        }
    }
}

/// Making room for an object drops nothing but oldest objects: what is left
/// of every queue is its newest part, in its old order.
pub proof fn law_only_oldest_objects_are_dropped(
    s: QueuesView,
    caps: OutboundQueueConfig,
    peer: [u8; 32],
    add: int,
)
    requires
        accounts_agree(s),
    ensures
        only_oldest_went(with_peer(s, peer), after_room(s, caps, peer, add).0),
        accounts_agree(after_room(s, caps, peer, add).0),
{
    lemma_after_peer_room(s, caps, peer, add);
    let mine = after_peer_room(s, caps, peer, add);
    let i = mine.place(peer);
    lemma_total_room(mine, i, add, caps);
    lemma_only_oldest_transitive(
        with_peer(s, peer),
        mine,
        with_total_room(mine, i, add, caps),
    );
}

/// Where an object finds room, no cap is exceeded after it was queued: not
/// the bytes or the objects of its peer, and not the bytes of all peers.
pub proof fn law_caps_hold_after_enqueue(
    s: QueuesView,
    caps: OutboundQueueConfig,
    peer: [u8; 32],
    o: QueuedObject,
)
    requires
        accounts_agree(s),
        caps.objects_per_peer >= 1,
        after_room(s, caps, peer, o.size()).1,
    ensures
        ({
            let t = after_enqueue(s, caps, peer, o);
            &&& accounts_agree(t)
            &&& t.total <= caps.total_bytes
            &&& t.queue(peer).bytes <= caps.bytes_per_peer
            &&& t.queue(peer).items.len() <= caps.objects_per_peer
            &&& t.queue(peer).items.last() == o
        }),
{
    let add = o.size();
    lemma_after_peer_room(s, caps, peer, add);
    lemma_with_peer(s, peer);
    let mine = after_peer_room(s, caps, peer, add);
    let q = s.queue(peer);
    if s.has(peer) {
        assert(q == s.peers[s.place(peer)]);
    }
    assert(q.bytes == size_of(q.items));
    lemma_peer_room(q, add, caps);
    let i = mine.place(peer);
    lemma_total_room(mine, i, add, caps);
    let room = with_total_room(mine, i, add, caps);
    assert(mine.peers[i].peer == peer);
    assert(room.peers[i].peer == peer);
    lemma_place_is(room, i);
    let newest = with_newest(room.peers[i], o);
    lemma_size_push(room.peers[i].items, o);
    lemma_with_keeps_accounts(room, i, newest);
    let t = room.with(i, newest);
    assert(t.peers[i] == newest);
    lemma_place_is(t, i);
    let r = with_room(q, add, caps);
    if r.items.len() == 0 {
        assert(size_of(r.items) == 0);
    }
}

/// An object that is itself within the caps always finds room.
pub proof fn law_object_within_the_caps_finds_room(
    s: QueuesView,
    caps: OutboundQueueConfig,
    peer: [u8; 32],
    add: int,
)
    requires
        accounts_agree(s),
        add <= caps.bytes_per_peer,
        add <= caps.total_bytes,
    ensures
        after_room(s, caps, peer, add).1,
{
    lemma_after_peer_room(s, caps, peer, add);
    let mine = after_peer_room(s, caps, peer, add);
    lemma_total_room(mine, mine.place(peer), add, caps);
}

/// Where there is room to begin with, nothing is dropped and the object comes
/// last.
pub proof fn law_room_means_no_loss(
    s: QueuesView,
    caps: OutboundQueueConfig,
    peer: [u8; 32],
    o: QueuedObject,
)
    requires
        accounts_agree(s),
        fits(s.queue(peer), o.size(), caps),
        s.total + o.size() <= caps.total_bytes,
    ensures
        after_room(s, caps, peer, o.size()).1,
        after_enqueue(s, caps, peer, o).queue(peer).items == s.queue(peer).items.push(o),
        forall|other: [u8; 32]|
            other != peer ==> #[trigger] after_enqueue(s, caps, peer, o).queue(other) == s.queue(
                other,
            ),
{
    let add = o.size();
    lemma_with_peer(s, peer);
    lemma_after_peer_room(s, caps, peer, add);
    let here = with_peer(s, peer);
    let q = s.queue(peer);
    if s.has(peer) {
        assert(q == s.peers[s.place(peer)]);
    }
    assert(q.bytes == size_of(q.items));
    lemma_size_nonnegative(q.items);
    lemma_peer_room(q, add, caps);
    let mine = after_peer_room(s, caps, peer, add);
    let i = here.place(peer);
    assert(mine.peers =~= here.peers);
    assert(mine.total == s.total);
    lemma_total_room(mine, i, add, caps);
    let newest = with_newest(mine.peers[i], o);
    lemma_size_push(mine.peers[i].items, o);
    lemma_with_keeps_accounts(mine, i, newest);
    let t = mine.with(i, newest);
    assert(t.peers[i] == newest);
    lemma_place_is(t, i);
    assert forall|other: [u8; 32]| other != peer implies #[trigger] t.queue(other) == s.queue(
        other,
    ) by {
        if s.has(other) {
            let p = s.place(other);
            assert(s.peers[p].peer == other);
            assert(t.peers[p] == s.peers[p]);
            lemma_place_is(t, p);
        } else if t.has(other) {
            let p = t.place(other);
            assert(t.peers[p].peer == other);
            assert(p != i);
            assert(p < s.peers.len());
            assert(s.peers[p].peer == other);
        }
    }
}

/// The objects that are still fit to be sent, in order.
pub open spec fn fresh(items: Seq<QueuedObject>, now: u64, max_age: u64) -> Seq<QueuedObject>
    decreases items.len(),
{
    if items.len() == 0 {
        Seq::empty()
    } else if items[0].is_stale(now, max_age) {
        fresh(items.drop_first(), now, max_age)
    } else {
        seq![items[0]] + fresh(items.drop_first(), now, max_age)
    }
}

proof fn lemma_taking(
    items: Seq<QueuedObject>,
    taken: Seq<QueuedObject>,
    now: u64,
    caps: OutboundQueueConfig,
)
    requires
        taken.len() <= caps.max_batch,
        forall|i: int| 0 <= i < taken.len() ==> taken[0].same_route(&#[trigger] taken[i]),
        forall|i: int|
            0 <= i < taken.len() ==> !(#[trigger] taken[i]).is_stale(now, caps.object_max_age_ms),
    ensures
        ({
            let (batch, rest) = taking(items, taken, now, caps);
            let gone = items.take(items.len() - rest.len());
            &&& batch.len() <= caps.max_batch
            &&& forall|i: int| 0 <= i < batch.len() ==> batch[0].same_route(&#[trigger] batch[i])
            &&& forall|i: int|
                0 <= i < batch.len() ==> !(#[trigger] batch[i]).is_stale(
                    now,
                    caps.object_max_age_ms,
                )
            &&& is_tail(rest, items)
            &&& batch == taken + fresh(gone, now, caps.object_max_age_ms)
        }),
    decreases items.len(),
{
    let (batch, rest) = taking(items, taken, now, caps);
    let max_age = caps.object_max_age_ms;
    if taken.len() >= caps.max_batch || items.len() == 0 || (!items[0].is_stale(now, max_age)
        && taken.len() > 0 && !taken[0].same_route(&items[0])) {
        assert(items.skip(0) =~= items);
        assert(items.take(0) =~= Seq::<QueuedObject>::empty());
        assert(taken + Seq::<QueuedObject>::empty() =~= taken);
    } else {
        let tail = items.drop_first();
        let next = if items[0].is_stale(now, max_age) {
            taken
        } else {
            taken.push(items[0])
        };
        assert forall|i: int| 0 <= i < next.len() implies next[0].same_route(
            &#[trigger] next[i],
        ) by {
            if i < taken.len() {
                assert(taken[0].same_route(&taken[i]));
            }
        }
        assert forall|i: int| 0 <= i < next.len() implies !(#[trigger] next[i]).is_stale(
            now,
            max_age,
        ) by {
            if i < taken.len() {
                assert(!taken[i].is_stale(now, max_age));
            }
        }
        lemma_taking(tail, next, now, caps);
        assert(tail =~= items.skip(1));
        lemma_tail_of_tail(rest, tail, items);
        let gone = items.take(items.len() - rest.len());
        assert(gone.drop_first() =~= tail.take(tail.len() - rest.len()));
        if items[0].is_stale(now, max_age) {
            assert(fresh(gone, now, max_age) == fresh(gone.drop_first(), now, max_age));
        } else {
            assert(next + fresh(gone.drop_first(), now, max_age) =~= taken + (seq![items[0]]
                + fresh(gone.drop_first(), now, max_age)));
        }
    }
}

/// A batch holds what is fit to be sent of the head of its queue, in order
/// and for one route, and no more than one request carries; what stays is the
/// rest of the queue, untouched.
pub proof fn law_batch_is_the_fresh_head(
    items: Seq<QueuedObject>,
    now: u64,
    caps: OutboundQueueConfig,
)
    ensures
        ({
            let (batch, rest) = batch_of(items, now, caps);
            let gone = items.take(items.len() - rest.len());
            &&& batch.len() <= caps.max_batch
            &&& forall|i: int| 0 <= i < batch.len() ==> batch[0].same_route(&#[trigger] batch[i])
            &&& is_tail(rest, items)
            &&& batch == fresh(gone, now, caps.object_max_age_ms)
        }),
{
    lemma_taking(items, Seq::empty(), now, caps);
    let (batch, rest) = batch_of(items, now, caps);
    let gone = items.take(items.len() - rest.len());
    assert(batch =~= fresh(gone, now, caps.object_max_age_ms));
}

proof fn lemma_all_fresh(items: Seq<QueuedObject>, now: u64, max_age: u64)
    requires
        forall|i: int| 0 <= i < items.len() ==> !(#[trigger] items[i]).is_stale(now, max_age),
    ensures
        fresh(items, now, max_age) == items,
    decreases items.len(),
{
    if items.len() > 0 {
        let tail = items.drop_first();
        assert forall|i: int| 0 <= i < tail.len() implies !(#[trigger] tail[i]).is_stale(
            now,
            max_age,
        ) by {
            assert(tail[i] == items[i + 1]);
        }
        lemma_all_fresh(tail, now, max_age);
        assert(seq![items[0]] + tail =~= items);
    } else {
        assert(fresh(items, now, max_age) =~= items);
    }
}

/// Putting a batch back undoes taking it: where no object was too old, the
/// queue and all accounts are as before, but for the note that something was
/// on its way.
pub proof fn law_requeue_undoes_take(
    s: QueuesView,
    peer: [u8; 32],
    now: u64,
    caps: OutboundQueueConfig,
)
    requires
        accounts_agree(s),
        s.has(peer),
        forall|i: int|
            0 <= i < s.queue(peer).items.len() ==> !(#[trigger] s.queue(peer).items[i]).is_stale(
                now,
                caps.object_max_age_ms,
            ),
    ensures
        ({
            let batch = batch_of(s.queue(peer).items, now, caps).0;
            let t = after_take(s, peer, now, caps);
            let u = t.with(t.place(peer), with_front(t.queue(peer), batch));
            &&& u.total == s.total
            &&& u.queue(peer).items == s.queue(peer).items
            &&& u.queue(peer).bytes == s.queue(peer).bytes
            &&& u.peers.len() == s.peers.len()
            &&& forall|j: int|
                0 <= j < s.peers.len() && j != s.place(peer) ==> #[trigger] u.peers[j]
                    == s.peers[j]
        }),
{
    let q = s.queue(peer);
    let i = s.place(peer);
    assert(s.peers[i].peer == peer);
    let (batch, rest) = batch_of(q.items, now, caps);
    let gone = q.items.take(q.items.len() - rest.len());
    law_batch_is_the_fresh_head(q.items, now, caps);
    assert forall|j: int| 0 <= j < gone.len() implies !(#[trigger] gone[j]).is_stale(
        now,
        caps.object_max_age_ms,
    ) by {
        assert(gone[j] == q.items[j]);
    }
    lemma_all_fresh(gone, now, caps.object_max_age_ms);
    assert(gone + rest =~= q.items);
    lemma_size_add(gone, rest);
    let taken = QueueView {
        items: rest,
        bytes: size_of(rest),
        in_flight: q.in_flight || batch.len() > 0,
        ..q
    };
    lemma_with_keeps_accounts(s, i, taken);
    let t = s.with(i, taken);
    assert(t.peers[i] == taken);
    lemma_place_is(t, i);
    let back = with_front(taken, batch);
    lemma_with_keeps_accounts(t, i, back);
    let u = t.with(i, back);
    assert(u.peers[i] == back);
    lemma_place_is(u, i);
}

// ---------------------------------------------------------------------------
// Delivery
// ---------------------------------------------------------------------------

/// What became of a request.
#[derive(Clone, Copy, Debug, PartialEq, Eq)]
pub enum DispatchOutcome {
    Success,
    /// The peer refused for good.
    Terminal4xx(u16),
    /// The request may succeed later.
    Transient,
}

/// What became of a request by the status of its reply, if one came.
pub fn dispatch_outcome(status: Option<u16>) -> (outcome: DispatchOutcome)
    ensures
        outcome == (match status {
            None => DispatchOutcome::Transient,
            Some(code) => if 200 <= code <= 299 {
                DispatchOutcome::Success
            } else if code != 429 && 400 <= code <= 499 {
                DispatchOutcome::Terminal4xx(code)
            } else {
                DispatchOutcome::Transient
            },
        }),
{
    match status {
        None => DispatchOutcome::Transient,
        Some(code) => if 200 <= code && code <= 299 {
            DispatchOutcome::Success
        } else if code == 429 || (500 <= code && code <= 599) {
            DispatchOutcome::Transient
        } else if 400 <= code && code <= 499 {
            DispatchOutcome::Terminal4xx(code)
        } else {
            DispatchOutcome::Transient
        },
    }
}

/// What a worker does after a request.
#[derive(Clone, Copy, Debug, PartialEq, Eq)]
pub enum DrainStep {
    /// The batch is done with: start again with the shortest wait and take
    /// the next one.
    NextBatch,
    /// Put the batch back, wait, and wait longer the next time.
    BackOff,
}

/// What a worker does after a request.
pub fn drain_step(outcome: DispatchOutcome) -> (step: DrainStep)
    ensures
        step == (if outcome is Transient {
            DrainStep::BackOff
        } else {
            DrainStep::NextBatch
        }),
{
    match outcome {
        DispatchOutcome::Transient => DrainStep::BackOff,
        _ => DrainStep::NextBatch,
    }
}

/// The shortest wait, in nanoseconds.
pub const MIN_WAIT_NANOS: u128 = 1_000_000;

/// How long a worker waits, in nanoseconds, where a part of the current wait
/// was drawn: never less than a tenth of it, so that a small draw makes no
/// tight loop.
pub open spec fn wait(current: u128, drawn: u128) -> u128 {
    let tenth = (current / 10) as u128;
    let floor = if tenth < MIN_WAIT_NANOS {
        MIN_WAIT_NANOS
    } else {
        tenth
    };
    if drawn < floor {
        floor
    } else {
        drawn
    }
}

/// How long a worker waits, in nanoseconds, where a part of the current wait
/// was drawn.
pub fn jitter_full(current: u128, drawn: u128) -> (nanos: u128)
    ensures
        nanos == wait(current, drawn),
{
    let tenth: u128 = current / 10;
    let floor: u128 = if tenth < MIN_WAIT_NANOS {
        MIN_WAIT_NANOS
    } else {
        tenth
    };
    if drawn < floor {
        floor
    } else {
        drawn
    }
}

/// The wait after one that failed again: it grows, up to a longest one.
pub fn next_wait(grown: u128, longest: u128) -> (nanos: u128)
    ensures
        nanos == (if grown < longest {
            grown
        } else {
            longest
        }),
{
    if grown < longest {
        grown
    } else {
        longest
    }
}

/// What a worker does after a request, and the waits that follow from it, in
/// nanoseconds.
#[derive(Clone, Copy, Debug, PartialEq, Eq)]
pub struct Pace {
    pub step: DrainStep,
    /// How long the worker pauses before it tries again, where it backs off.
    pub pause: Option<u128>,
    /// The wait that the next failure starts from.
    pub current: u128,
}

/// What a worker does after a request, where it waits `current` now: after a
/// request that settled its batch the waits begin anew at `initial`. After one
/// that did not, the worker pauses for what was `drawn` of the current wait,
/// and the next wait is the `grown` one, up to the `longest`.
pub fn after_dispatch(
    outcome: DispatchOutcome,
    current: u128,
    drawn: u128,
    grown: u128,
    initial: u128,
    longest: u128,
) -> (pace: Pace)
    ensures
        pace.step == (if outcome is Transient {
            DrainStep::BackOff
        } else {
            DrainStep::NextBatch
        }),
        pace.pause == (if outcome is Transient {
            Some(wait(current, drawn))
        } else {
            None
        }),
        pace.current == (if !(outcome is Transient) {
            initial
        } else if grown < longest {
            grown
        } else {
            longest
        }),
{
    let step: DrainStep = drain_step(outcome);
    match step {
        DrainStep::NextBatch => Pace { step, pause: None, current: initial },
        DrainStep::BackOff => Pace {
            step,
            pause: Some(jitter_full(current, drawn)),
            current: next_wait(grown, longest),
        },
    }
}

/// A worker waits at least a tenth of the current wait and a millisecond, and
/// never longer than the current wait, or a millisecond where that is shorter.
pub proof fn law_waits_are_bounded(current: u128, drawn: u128)
    requires
        drawn <= current,
    ensures
        wait(current, drawn) >= current / 10,
        wait(current, drawn) >= MIN_WAIT_NANOS,
        wait(current, drawn) <= current || wait(current, drawn) == MIN_WAIT_NANOS,
{
}

/// Writes the body of a request: the wire forms of a batch, listed under the
/// key of their route.
pub fn encode_batch_body(key: &str, wires: &Vec<Vec<u8>>) -> (body: Vec<u8>)
    ensures
        body@ == crate::cbor::cbor_encoding(push::list_body(key@, push::byte_strings(wires@))),
        push::list_in(body@, key@) == Some(push::byte_strings(wires@)),
{
    push::encode_list(key, wires)
}

/// The last object that a queue lost, where `after` is what is left of it.
pub open spec fn last_gone(before: Seq<QueuedObject>, after: Seq<QueuedObject>) -> QueuedObject {
    before[before.len() - after.len() - 1]
}

/// No object of a peer is dropped in vain: the next object finds no room in a
/// queue that still has the last one that went.
pub proof fn law_no_more_is_dropped_than_room_takes(
    q: QueueView,
    add: int,
    caps: OutboundQueueConfig,
)
    requires
        q.bytes == size_of(q.items),
    ensures
        ({
            let left = with_room(q, add, caps).items;
            &&& is_tail(left, q.items)
            &&& left.len() == 0 || (left.len() < caps.objects_per_peer && size_of(left) + add
                <= caps.bytes_per_peer)
            &&& left.len() < q.items.len() ==> (left.len() + 1 >= caps.objects_per_peer || size_of(
                left,
            ) + last_gone(q.items, left).size() + add > caps.bytes_per_peer)
        }),
    decreases q.items.len(),
{
    lemma_peer_room(q, add, caps);
    if q.items.len() > 0 && !fits(q, add, caps) {
        let next = without_oldest(q);
        law_no_more_is_dropped_than_room_takes(next, add, caps);
        let left = with_room(q, add, caps).items;
        if left.len() == next.items.len() {
            assert(left =~= next.items);
            assert(last_gone(q.items, left) == q.items[0]);
        } else {
            assert(last_gone(q.items, left) == last_gone(next.items, left));
        }
    }
}

/// Where all queues together are over their cap, the largest ones give way: a
/// queue that lost an object had, with that object, at least as many bytes as
/// any queue has that still holds an object, the bytes counted that are about
/// to join. And no object goes in vain: with one of those that went last, all
/// queues together would be over their cap still.
pub proof fn law_the_largest_queues_give_way(
    s: QueuesView,
    mine: int,
    add: int,
    caps: OutboundQueueConfig,
)
    requires
        accounts_agree(s),
    ensures
        ({
            let t = with_total_room(s, mine, add, caps);
            &&& forall|j: int, k: int|
                #![trigger t.peers[j], t.peers[k]]
                0 <= j < s.peers.len() && 0 <= k < s.peers.len() && t.peers[j].items.len()
                    < s.peers[j].items.len() && t.peers[k].items.len() > 0 ==> t.peers[j].bytes
                    + last_gone(s.peers[j].items, t.peers[j].items).size() + (if j == mine {
                    add
                } else {
                    0
                }) >= t.peers[k].bytes + (if k == mine {
                    add
                } else {
                    0
                })
            &&& t != s ==> exists|j: int|
                0 <= j < s.peers.len() && (#[trigger] t.peers[j]).items.len()
                    < s.peers[j].items.len() && t.total + last_gone(
                    s.peers[j].items,
                    t.peers[j].items,
                ).size() + add > caps.total_bytes
        }),
    decreases count_of(s.peers),
{
    let t = with_total_room(s, mine, add, caps);
    law_largest_queue_gives_first(s.peers, s.peers.len() as int, mine, add);
    let largest = largest_of(s.peers, s.peers.len() as int, mine, add);
    if s.total + add > caps.total_bytes && largest is Some {
        let b = largest->Some_0;
        lemma_update_sums(s.peers, b, without_oldest(s.peers[b]));
        lemma_without_oldest(s, b);
        let next = s.with(b, without_oldest(s.peers[b]));
        law_the_largest_queues_give_way(next, mine, add, caps);
        lemma_total_room(next, mine, add, caps);
        lemma_only_oldest_transitive(s, next, t);
        assert forall|j: int|
            #![trigger t.peers[j]]
            0 <= j < s.peers.len() && t.peers[j].items.len() < next.peers[j].items.len() implies
            last_gone(s.peers[j].items, t.peers[j].items) == last_gone(
            next.peers[j].items,
            t.peers[j].items,
        ) by {
            assert(is_tail(t.peers[j].items, next.peers[j].items));
        }
        assert forall|j: int, k: int|
            #![trigger t.peers[j], t.peers[k]]
            0 <= j < s.peers.len() && 0 <= k < s.peers.len() && t.peers[j].items.len()
                < s.peers[j].items.len() && t.peers[k].items.len() > 0 implies t.peers[j].bytes
            + last_gone(s.peers[j].items, t.peers[j].items).size() + (if j == mine {
            add
        } else {
            0
        }) >= t.peers[k].bytes + (if k == mine {
            add
        } else {
            0
        }) by {
            if t.peers[j].items.len() == next.peers[j].items.len() {
                assert(j == b);
                assert(t.peers[j].items =~= next.peers[j].items);
                assert(accounts_agree(t));
                assert(t.peers[j].bytes == size_of(t.peers[j].items));
                assert(next.peers[j].bytes == size_of(next.peers[j].items));
                assert(last_gone(s.peers[j].items, t.peers[j].items) == s.peers[j].items[0]);
                assert(s.peers[k].items.len() > 0);
                assert(load(s.peers, k, mine, add) <= load(s.peers, b, mine, add));
                assert(t.peers[k].bytes <= s.peers[k].bytes);
            }
        }
        if t == next {
            assert(t.peers[b].items.len() < s.peers[b].items.len());
            assert(last_gone(s.peers[b].items, t.peers[b].items) == s.peers[b].items[0]);
        } else {
            let j = choose|j: int|
                0 <= j < next.peers.len() && (#[trigger] t.peers[j]).items.len()
                    < next.peers[j].items.len() && t.total + last_gone(
                    next.peers[j].items,
                    t.peers[j].items,
                ).size() + add > caps.total_bytes;
            assert(t.peers[j].items.len() < s.peers[j].items.len());
        }
    }
}

/// One peer's objects never push out those of another while all of them fit:
/// another queue loses an object only where the objects of all peers, with the
/// new one, are over their cap.
pub proof fn law_full_queues_are_their_own_matter(
    s: QueuesView,
    caps: OutboundQueueConfig,
    peer: [u8; 32],
    o: QueuedObject,
    other: [u8; 32],
)
    requires
        accounts_agree(s),
        s.total + o.size() <= caps.total_bytes,
        other != peer,
    ensures
        after_enqueue(s, caps, peer, o).queue(other) == s.queue(other),
        after_room(s, caps, peer, o.size()).0.queue(peer).items == with_room(
            s.queue(peer),
            o.size(),
            caps,
        ).items,
{
    let add = o.size();
    let here = with_peer(s, peer);
    let mine = after_peer_room(s, caps, peer, add);
    lemma_with_peer(s, peer);
    lemma_after_peer_room(s, caps, peer, add);
    let i = here.place(peer);
    lemma_peer_room(here.peers[i], add, caps);
    assert(mine.total <= s.total);
    lemma_total_room(mine, mine.place(peer), add, caps);
    let (room, found) = after_room(s, caps, peer, add);
    assert(room == mine);
    let after = after_enqueue(s, caps, peer, o);
    assert(room.peers[i].peer == peer);
    if found {
        lemma_size_push(room.peers[i].items, o);
        lemma_with_keeps_accounts(room, i, with_newest(room.peers[i], o));
    }
    assert(accounts_agree(after));
    assert forall|j: int| #![trigger after.peers[j]] 0 <= j < here.peers.len() && j != i implies
        after.peers[j] == here.peers[j] by {}
    assert(after.peers[i].peer == peer);
    if here.has(other) {
        let j = here.place(other);
        assert(here.peers[j].peer == other);
        assert(j != i);
        assert(after.peers[j] == here.peers[j]);
        lemma_place_is(after, j);
        lemma_place_is(here, j);
        if s.has(peer) {
        } else {
            assert(here.peers[here.peers.len() - 1].peer == peer);
            assert(s.peers[j] == here.peers[j]);
        }
        lemma_place_is(s, j);
    } else {
        if after.has(other) {
            let j = after.place(other);
            assert(after.peers[j].peer == other);
            assert(here.peers[j].peer == other);
        }
        if s.has(other) {
            let j = s.place(other);
            assert(s.peers[j].peer == other);
            assert(here.peers[j] == s.peers[j]);
        }
    }
}

proof fn lemma_taking_ends(
    items: Seq<QueuedObject>,
    taken: Seq<QueuedObject>,
    now: u64,
    caps: OutboundQueueConfig,
)
    requires
        taken.len() <= caps.max_batch,
    ensures
        ({
            let (batch, rest) = taking(items, taken, now, caps);
            &&& taken.len() > 0 ==> batch.len() > 0 && batch[0] == taken[0]
            &&& rest.len() > 0 ==> batch.len() == caps.max_batch || (batch.len() > 0
                && !rest[0].is_stale(now, caps.object_max_age_ms) && !batch[0].same_route(&rest[0]))
        }),
    decreases items.len(),
{
    if taken.len() >= caps.max_batch || items.len() == 0 {
    } else if items[0].is_stale(now, caps.object_max_age_ms) {
        lemma_taking_ends(items.drop_first(), taken, now, caps);
    } else if taken.len() > 0 && !taken[0].same_route(&items[0]) {
    } else {
        lemma_taking_ends(items.drop_first(), taken.push(items[0]), now, caps);
    }
}

proof fn lemma_fresh_holds(items: Seq<QueuedObject>, now: u64, max_age: u64, i: int)
    requires
        0 <= i < items.len(),
        !items[i].is_stale(now, max_age),
    ensures
        fresh(items, now, max_age).contains(items[i]),
    decreases items.len(),
{
    if i == 0 {
        assert(fresh(items, now, max_age)[0] == items[0]);
    } else {
        lemma_fresh_holds(items.drop_first(), now, max_age, i - 1);
        let rest = fresh(items.drop_first(), now, max_age);
        let j = choose|j: int| 0 <= j < rest.len() && rest[j] == items[i];
        if items[0].is_stale(now, max_age) {
        } else {
            assert(fresh(items, now, max_age)[j + 1] == items[i]);
        }
    }
}

/// A batch stops only where it must: at the end of the queue, where it is
/// full, or before an object that is fit to be sent by another route. No
/// object that waited longer than the caps allow is in it, and none that did
/// not is lost between it and what stays.
pub proof fn law_batches_are_as_long_as_they_may_be(
    items: Seq<QueuedObject>,
    now: u64,
    caps: OutboundQueueConfig,
    i: int,
)
    ensures
        ({
            let (batch, rest) = batch_of(items, now, caps);
            &&& rest.len() > 0 ==> batch.len() == caps.max_batch || (batch.len() > 0 && now
                - rest[0].enqueued_at_ms <= caps.object_max_age_ms && (batch[0].path@
                != rest[0].path@ || batch[0].body_key@ != rest[0].body_key@))
            &&& 0 <= i < batch.len() ==> now - batch[i].enqueued_at_ms <= caps.object_max_age_ms
                && batch[i].path@ == batch[0].path@ && batch[i].body_key@ == batch[0].body_key@
            &&& 0 <= i < items.len() - rest.len() && now - items[i].enqueued_at_ms
                <= caps.object_max_age_ms ==> batch.contains(items[i])
        }),
{
    lemma_taking_ends(items, Seq::empty(), now, caps);
    lemma_taking(items, Seq::empty(), now, caps);
    let (batch, rest) = batch_of(items, now, caps);
    let gone = items.take(items.len() - rest.len());
    assert(batch =~= fresh(gone, now, caps.object_max_age_ms));
    if 0 <= i < batch.len() {
        assert(batch[0].same_route(&batch[i]));
        assert(!batch[i].is_stale(now, caps.object_max_age_ms));
    }
    if 0 <= i < items.len() - rest.len() && now - items[i].enqueued_at_ms
        <= caps.object_max_age_ms {
        assert(gone[i] == items[i]);
        lemma_fresh_holds(gone, now, caps.object_max_age_ms, i);
    }
}

/// Taking a batch for a peer touches no other queue, and notes that something
/// is on its way exactly where something is.
pub proof fn law_taking_a_batch_is_noted(
    s: QueuesView,
    peer: [u8; 32],
    now: u64,
    caps: OutboundQueueConfig,
    j: int,
)
    requires
        accounts_agree(s),
        s.has(peer),
        0 <= j < s.peers.len(),
    ensures
        ({
            let (batch, rest) = batch_of(s.queue(peer).items, now, caps);
            let t = after_take(s, peer, now, caps);
            &&& t.peers.len() == s.peers.len()
            &&& s.peers[j].peer != peer ==> t.peers[j] == s.peers[j]
            &&& s.peers[j].peer == peer ==> {
                &&& t.peers[j].peer == peer
                &&& t.peers[j].items == rest
                &&& t.peers[j].bytes == size_of(rest)
                &&& t.peers[j].in_flight == (s.peers[j].in_flight || batch.len() > 0)
                &&& t.peers[j].stopped == s.peers[j].stopped
                &&& t.peers[j].worker_spawned == s.peers[j].worker_spawned
            }
            &&& accounts_agree(t)
        }),
{
    lemma_place_is(s, j);
    let i = s.place(peer);
    assert(s.peers[i].peer == peer);
    let q = s.queue(peer);
    let (batch, rest) = batch_of(q.items, now, caps);
    lemma_with_keeps_accounts(
        s,
        i,
        QueueView {
            items: rest,
            bytes: size_of(rest),
            in_flight: q.in_flight || batch.len() > 0,
            ..q
        },
    );
}

/// A batch that was answered with a success, or refused for good, is not sent
/// again; one that was not answered, was answered with anything else, or came
/// too fast for the peer, is.
pub proof fn law_only_what_may_succeed_is_sent_again(
    status: Option<u16>,
    outcome: DispatchOutcome,
    step: DrainStep,
)
    requires
        call_ensures(dispatch_outcome, (status,), outcome),
        call_ensures(drain_step, (outcome,), step),
    ensures
        outcome is Success <==> (status matches Some(c) && 200 <= c <= 299),
        outcome is Terminal4xx <==> (status matches Some(c) && 400 <= c <= 499 && c != 429),
        outcome is Terminal4xx ==> outcome->Terminal4xx_0 == status->Some_0,
        step is BackOff <==> (status matches Some(c) ==> c == 429 || c < 200 || 300 <= c < 400
            || c >= 500),
{
}

/// A worker pauses exactly where its batch goes back, for what was drawn of
/// the current wait but for a tenth of it and a millisecond at least. Its next
/// wait is the grown one, but no longer than the longest, and the first one
/// again as soon as a batch is settled.
pub proof fn law_waits_grow_until_a_batch_is_settled(
    status: Option<u16>,
    outcome: DispatchOutcome,
    current: u128,
    drawn: u128,
    grown: u128,
    initial: u128,
    longest: u128,
    pace: Pace,
)
    requires
        call_ensures(dispatch_outcome, (status,), outcome),
        call_ensures(after_dispatch, (outcome, current, drawn, grown, initial, longest), pace),
    ensures
        pace.step is BackOff <==> pace.pause is Some,
        pace.step is BackOff <==> (status matches Some(c) ==> c == 429 || c < 200 || 300 <= c < 400
            || c >= 500),
        pace.step is NextBatch ==> pace.current == initial,
        pace.step is BackOff ==> pace.current <= longest && pace.current <= grown && (
        pace.current == longest || pace.current == grown),
        pace.pause matches Some(nanos) ==> {
            &&& nanos >= drawn && nanos >= current / 10 && nanos >= 1_000_000
            &&& nanos == drawn || nanos == current / 10 || nanos == 1_000_000
        },
{
}

/// An object that is within the caps by itself is queued, behind what waits
/// for its peer, and no cap is exceeded then. A worker is asked for exactly
/// where an object was queued and none was at work.
pub proof fn law_objects_within_the_caps_are_queued(
    queues: &mut OutboundQueues,
    peer: [u8; 32],
    path: &'static str,
    body_key: &'static str,
    wire_bytes: Vec<u8>,
    now_ms: u64,
    outcome: Enqueued,
)
    requires
        old(queues).wf(),
        old(queues).caps().objects_per_peer >= 1,
        call_ensures(
            OutboundQueues::enqueue,
            (queues, peer, path, body_key, wire_bytes, now_ms),
            outcome,
        ),
    ensures
        ({
            let caps = old(queues).caps();
            let size = wire_bytes@.len();
            let waits = final(queues)@.queue(peer);
            &&& final(queues).caps() == caps
            &&& size <= caps.bytes_per_peer && size <= caps.total_bytes ==> outcome.accepted
            &&& outcome.accepted ==> {
                &&& waits.items.len() > 0
                &&& waits.items.last().path@ == path@
                &&& waits.items.last().body_key@ == body_key@
                &&& waits.items.last().wire_bytes@ == wire_bytes@
                &&& waits.items.last().enqueued_at_ms == now_ms
                &&& waits.items.len() <= caps.objects_per_peer
                &&& waits.bytes <= caps.bytes_per_peer
                &&& final(queues)@.total <= caps.total_bytes
            }
            &&& outcome.spawn_worker <==> outcome.accepted && !old(queues)@.queue(
                peer,
            ).worker_spawned
        }),
{
    let s = old(queues)@;
    let caps = old(queues).caps();
    let o = QueuedObject { path, body_key, wire_bytes, enqueued_at_ms: now_ms };
    if o.size() <= caps.bytes_per_peer && o.size() <= caps.total_bytes {
        law_object_within_the_caps_finds_room(s, caps, peer, o.size());
    }
    if outcome.accepted {
        law_caps_hold_after_enqueue(s, caps, peer, o);
        let t = after_enqueue(s, caps, peer, o);
        assert(t.queue(peer).items.len() > 0) by {
            let (room, found) = after_room(s, caps, peer, o.size());
            law_only_oldest_objects_are_dropped(s, caps, peer, o.size());
            lemma_with_peer(s, peer);
            let here = with_peer(s, peer);
            let i = here.place(peer);
            assert(here.peers[i].peer == peer);
            assert(room.peers[i].peer == peer);
            lemma_place_is(room, i);
            lemma_size_push(room.peers[i].items, o);
            lemma_with_keeps_accounts(room, i, with_newest(room.peers[i], o));
            assert(t.peers[i].peer == peer);
            lemma_place_is(t, i);
        }
    }
}

/// What one step of a worker does to a queue: taking a batch off leaves the
/// rest, putting it back puts it before the rest, and the note that something
/// is on its way is taken back by itself. No other queue is touched.
pub proof fn law_workers_touch_their_own_queue(
    queues: &mut OutboundQueues,
    peer: [u8; 32],
    batch: Vec<QueuedObject>,
    unit: (),
    j: int,
)
    requires
        old(queues).wf(),
        old(queues)@.total + size_of(batch@) <= usize::MAX,
        call_ensures(OutboundQueues::requeue_front, (queues, peer, batch), unit),
        0 <= j < old(queues)@.peers.len(),
    ensures
        ({
            let before = old(queues)@.peers[j];
            let after = final(queues)@.peers[j];
            &&& final(queues)@.peers.len() == old(queues)@.peers.len()
            &&& before.peer != peer ==> after == before
            &&& before.peer == peer ==> after.peer == peer && after.items == batch@ + before.items
                && after.bytes == before.bytes + size_of(batch@) && after.in_flight
                == before.in_flight && after.stopped == before.stopped && after.worker_spawned
                == before.worker_spawned
        }),
{
    lemma_place_is(old(queues)@, j);
    if old(queues)@.has(peer) {
        assert(old(queues)@.peers[old(queues)@.place(peer)].peer == peer);
    }
}

/// What is no longer on its way is noted for its peer alone, and its objects
/// stay.
pub proof fn law_arrivals_are_noted(
    queues: &mut OutboundQueues,
    peer: &[u8; 32],
    unit: (),
    j: int,
)
    requires
        old(queues).wf(),
        call_ensures(OutboundQueues::mark_in_flight_false, (queues, peer), unit),
        0 <= j < old(queues)@.peers.len(),
    ensures
        ({
            let before = old(queues)@.peers[j];
            let after = final(queues)@.peers[j];
            &&& final(queues)@.peers.len() == old(queues)@.peers.len()
            &&& before.peer != *peer ==> after == before
            &&& before.peer == *peer ==> !after.in_flight && after.peer == *peer && after.items
                == before.items && after.bytes == before.bytes && after.stopped == before.stopped
                && after.worker_spawned == before.worker_spawned
        }),
{
    lemma_place_is(old(queues)@, j);
    if old(queues)@.has(*peer) {
        assert(old(queues)@.peers[old(queues)@.place(*peer)].peer == *peer);
    }
}

/// A peer that is no longer one has its queue marked, and a queue is taken
/// down exactly where it is marked; those of the other peers stay as they are.
pub proof fn law_marked_queues_are_taken_down(
    queues: &mut OutboundQueues,
    peer: &[u8; 32],
    found: bool,
    later: &mut OutboundQueues,
    gone: bool,
    j: int,
)
    requires
        old(queues).wf(),
        call_ensures(OutboundQueues::drop_peer, (queues, peer), found),
        *old(later) == *final(queues),
        call_ensures(OutboundQueues::check_and_remove_if_stopped, (later, peer), gone),
        0 <= j < old(queues)@.peers.len(),
    ensures
        found <==> exists|i: int|
            0 <= i < old(queues)@.peers.len() && (#[trigger] old(queues)@.peers[i]).peer == *peer,
        gone,
        !final(later)@.has(*peer),
        old(queues)@.peers[j].peer == *peer ==> final(queues)@.peers[j].stopped
            && final(queues)@.peers[j].items == old(queues)@.peers[j].items,
        old(queues)@.peers[j].peer != *peer ==> final(queues)@.peers[j] == old(queues)@.peers[j]
            && final(later)@.peers.contains(old(queues)@.peers[j]),
{
    let s = old(queues)@;
    lemma_place_is(s, j);
    let t = final(queues)@;
    if s.has(*peer) {
        let i = s.place(*peer);
        assert(s.peers[i].peer == *peer);
        assert(t.peers[i].peer == *peer);
        lemma_place_is(t, i);
        if s.peers[j].peer != *peer {
            assert(t.peers[j] == s.peers[j]);
            let u = final(later)@;
            if j < i {
                assert(u.peers[j] == s.peers[j]);
            } else {
                assert(u.peers[j - 1] == s.peers[j]);
            }
        }
    } else {
        assert(t == s);
        assert(final(later)@.peers[j] == s.peers[j]);
    }
}

/// A queue that is not marked stays where it is.
pub proof fn law_unmarked_queues_stay(
    queues: &mut OutboundQueues,
    peer: &[u8; 32],
    gone: bool,
)
    requires
        old(queues).wf(),
        call_ensures(OutboundQueues::check_and_remove_if_stopped, (queues, peer), gone),
        old(queues)@.has(*peer),
        !old(queues)@.queue(*peer).stopped,
    ensures
        !gone,
        final(queues)@ == old(queues)@,
{
}

/// The queues are idle exactly where nothing waits in any of them and nothing
/// is on its way; what waits is told for each peer and for all of them.
pub proof fn law_depths_are_told(
    queues: &OutboundQueues,
    peer: &[u8; 32],
    depth: (usize, usize),
    bytes: usize,
    idle: bool,
    j: int,
)
    requires
        queues.wf(),
        call_ensures(OutboundQueues::depth_for, (queues, peer), depth),
        call_ensures(OutboundQueues::total_bytes, (queues,), bytes),
        call_ensures(OutboundQueues::is_idle_now, (queues,), idle),
        0 <= j < queues@.peers.len(),
        queues@.peers[j].peer == *peer,
    ensures
        depth.0 == queues@.peers[j].items.len(),
        depth.1 == size_of(queues@.peers[j].items),
        depth.1 <= bytes,
        idle ==> depth.0 == 0 && !queues@.peers[j].in_flight,
        depth.0 > 0 || queues@.peers[j].in_flight ==> !idle,
{
    lemma_place_is(queues@, j);
    lemma_bytes_within_total(queues@, j);
}

/// New queues hold nothing, for no peer, and keep the caps that they are given.
pub proof fn law_new_queues_hold_nothing(
    config: OutboundQueueConfig,
    queues: OutboundQueues,
    peer: [u8; 32],
)
    requires
        call_ensures(OutboundQueues::new, (config,), queues),
    ensures
        !queues@.has(peer),
        queues@.total == 0,
        queues.caps() == config,
{
}

} // verus!
