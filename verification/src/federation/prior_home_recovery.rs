//! Fetching back what a key signed: pages from a former home or from peers,
//! which peers are asked, and when the recovery is done.

use vstd::prelude::*;
use vstd::string::StringExecFns;
use vstd::utf8::*;

use crate::base64_text;
use crate::base64_text::to_base64_url;
use crate::bytes::{key_from_slice, same_key};
use crate::cbor;
use crate::cbor::{Cbor, CborView, DictBuilder};
use crate::federation::fields;
use crate::federation::prior_home_client;
use crate::federation::prior_home_client::ProbeError;
use crate::federation::signed::{Parsed, SignedPayload};
use crate::federation::transport;
use crate::federation::transport::TransportError;
use crate::text;
use crate::text::{cut, find_byte, push_hex, read_number};

verus! {

/// How many pages of one surface are fetched.
pub const MAX_RECOVERY_PAGES: usize = 64;

/// How many peers are asked.
pub const MAX_FALLBACK_PEERS: usize = 16;

/// How many surfaces of one peer are fetched at a time.
pub const BACKFILL_CONCURRENT_PER_PEER: usize = 4;

/// How often a peer may ask for patience over the pages of one surface.
pub const THROTTLE_MAX_RETRIES: u32 = 5;

/// The longest wait that a peer may ask for.
pub const MAX_RETRY_AFTER_SECS: u64 = 60;

/// How many authors are fetched at a time.
pub const PROACTIVE_BACKFILL_BATCH_CONCURRENCY: usize = 8;

/// Where a former home serves what a key wrote.
pub const CONTENT_BY_KEY_PATH: &'static str = "/federation/v1/prior-home/content-by-key";

/// Where a former home serves who trusts a key.
pub const INBOUND_EDGES_BY_KEY_PATH: &'static str =
    "/federation/v1/prior-home/inbound-edges-by-key";

/// The wait in seconds that a reply asks for, if it asks for one.
pub fn retry_after_secs(header: Option<&str>) -> (secs: Option<u64>)
    ensures
        secs == match header {
            Some(h) => text::number_in(encode_utf8(text::trimmed(h@))),
            None => None,
        },
{
    match header {
        Some(h) => read_number(h.trim()),
        None => None,
    }
}

/// How long to wait when a peer asks for patience: what it asks for, but at
/// least a second and at most the longest wait.
pub open spec fn wait_of(retry_after: Option<u64>) -> u64 {
    match retry_after {
        Some(s) => if s < 1 {
            1
        } else if s > MAX_RETRY_AFTER_SECS {
            MAX_RETRY_AFTER_SECS
        } else {
            s
        },
        None => MAX_RETRY_AFTER_SECS,
    }
}

fn wait_for(retry_after: Option<u64>) -> (secs: u64)
    ensures
        secs == wait_of(retry_after),
{
    match retry_after {
        Some(s) => if s < 1 {
            1
        } else if s > MAX_RETRY_AFTER_SECS {
            MAX_RETRY_AFTER_SECS
        } else {
            s
        },
        None => MAX_RETRY_AFTER_SECS,
    }
}

/// What came of fetching one surface.
#[derive(Clone, Copy, Debug, PartialEq, Eq, Structural)]
pub struct SurfaceStats {
    pub pages_fetched: usize,
    pub objects_seen: usize,
    pub complete: bool,
}

impl Default for SurfaceStats {
    /// Nothing yet.
    fn default() -> (stats: Self)
        ensures
            stats == (SurfaceStats { pages_fetched: 0, objects_seen: 0, complete: false }),
    {
        SurfaceStats { pages_fetched: 0, objects_seen: 0, complete: false }
    }
}

/// Why a surface could not be fetched.
#[derive(Clone, Copy, Debug)]
pub enum PageError {
    Transport(TransportError),
    Status(u16),
    Decode(&'static str),
}

/// What a page error holds.
pub enum PageFailure {
    Transport(TransportError),
    Status(u16),
    Decode(Seq<char>),
}

impl PageError {
    /// What the error holds.
    pub open spec fn view(&self) -> PageFailure {
        match self {
            PageError::Transport(t) => PageFailure::Transport(*t),
            PageError::Status(s) => PageFailure::Status(*s),
            PageError::Decode(w) => PageFailure::Decode(w@),
        }
    }

    /// What the error says.
    pub fn display(&self) -> (text: String)
        requires
            *self matches PageError::Status(s) ==> 100 <= s <= 999,
        ensures
            text@ == match *self {
                PageError::Transport(t) => "transport: "@ + transport::error_text(t),
                PageError::Status(s) => "status: "@ + prior_home_client::status_line(s),
                PageError::Decode(w) => "decode: "@ + w@,
            },
    {
        let mut out: String = String::new();
        match self {
            PageError::Transport(t) => {
                out.append("transport: ");
                out.append(t.display().as_str());
                assert(out@ =~= "transport: "@ + transport::error_text(*t));
            },
            PageError::Status(s) => {
                out.append("status: ");
                out.append(prior_home_client::render_status(*s).as_str());
                assert(out@ =~= "status: "@ + prior_home_client::status_line(*s));
            },
            PageError::Decode(w) => {
                out.append("decode: ");
                out.append(w);
                assert(out@ =~= "decode: "@ + w@);
            },
        }
        out
    }
}

/// The page error of a probe error.
pub open spec fn page_error_of(e: ProbeError) -> PageError {
    match e {
        ProbeError::Transport(t) => PageError::Transport(t),
        ProbeError::Status(s) => PageError::Status(s),
        ProbeError::Decode(w) => PageError::Decode(w),
    }
}

impl vstd::std_specs::convert::FromSpecImpl<ProbeError> for PageError {
    open spec fn obeys_from_spec() -> bool {
        true
    }

    open spec fn from_spec(e: ProbeError) -> Self {
        page_error_of(e)
    }
}

impl From<ProbeError> for PageError {
    fn from(e: ProbeError) -> Self {
        match e {
            ProbeError::Transport(t) => PageError::Transport(t),
            ProbeError::Status(s) => PageError::Status(s),
            ProbeError::Decode(w) => PageError::Decode(w),
        }
    }
}

/// The entries of a request for a page.
pub open spec fn bulk_fetch_entries(
    challenge: Seq<u8>,
    response: Seq<u8>,
    since: Option<Seq<u8>>,
) -> Seq<(CborView, CborView)> {
    let e = Seq::<(CborView, CborView)>::empty().push(
        (CborView::Text("challenge"@), CborView::Bytes(challenge)),
    ).push((CborView::Text("response"@), CborView::Bytes(response)));
    match since {
        Some(s) => e.push((CborView::Text("since"@), CborView::Bytes(s))),
        None => e,
    }
}

/// The request for a page from a former home.
pub fn encode_bulk_fetch_body(
    challenge_wire: &[u8],
    response_wire: &[u8],
    since: Option<&[u8]>,
) -> (body: Vec<u8>)
    ensures
        cbor::cbor_decoding(body@) == Some(
            CborView::Dict(
                bulk_fetch_entries(
                    challenge_wire@,
                    response_wire@,
                    match since {
                        Some(s) => Some(s@),
                        None => None,
                    },
                ),
            ),
        ),
{
    let mut dict = DictBuilder::new();
    dict.put("challenge", cbor::bytes(challenge_wire));
    dict.put("response", cbor::bytes(response_wire));
    if let Some(s) = since {
        dict.put("since", cbor::bytes(s));
    }
    proof {
        fields::lemma_plain_is_writable(dict@);
    }
    let item: Cbor = dict.finish();
    cbor::encode(&item)
}

/// A page that was read: how many objects it carries, whether it is the last
/// one, and where the next one starts.
#[derive(Debug)]
pub struct Page {
    pub objects: usize,
    pub next_cursor: Option<Vec<u8>>,
    pub complete: bool,
}

/// What came back for a request for a page.
#[derive(Debug)]
pub enum PageReply {
    Failed(TransportError),
    Answered { status: u16, retry_after: Option<u64>, page: Option<Page> },
}

/// A page that was read.
pub struct PageView {
    pub objects: nat,
    pub next_cursor: Option<Seq<u8>>,
    pub complete: bool,
}

/// What came back for a request for a page.
pub enum ReplyView {
    Failed(TransportError),
    Answered { status: u16, retry_after: Option<u64>, page: Option<PageView> },
}

impl PageReply {
    /// What came back.
    pub open spec fn view(&self) -> ReplyView {
        match self {
            PageReply::Failed(t) => ReplyView::Failed(*t),
            PageReply::Answered { status, retry_after, page } => ReplyView::Answered {
                status: *status,
                retry_after: *retry_after,
                page: match page {
                    Some(p) => Some(
                        PageView {
                            objects: p.objects as nat,
                            next_cursor: match p.next_cursor {
                                Some(c) => Some(c@),
                                None => None,
                            },
                            complete: p.complete,
                        },
                    ),
                    None => None,
                },
            },
        }
    }
}

/// How far the fetching of a surface has come.
pub struct PagingView {
    pub pages: nat,
    pub objects: nat,
    pub retries: nat,
    pub cursor: Option<Seq<u8>>,
}

/// What to do next.
#[derive(Debug)]
pub enum PageAction {
    /// Ask for the page at the cursor.
    Fetch,
    /// Ask for the same page again after so many seconds.
    WaitAndFetch(u64),
    Done(SurfaceStats),
    Fail(PageError),
}

/// What to do next.
pub enum ActionView {
    Fetch,
    WaitAndFetch(u64),
    Done { pages: nat, objects: nat, complete: bool },
    Fail(PageFailure),
}

impl PageAction {
    /// What to do next.
    pub open spec fn view(&self) -> ActionView {
        match self {
            PageAction::Fetch => ActionView::Fetch,
            PageAction::WaitAndFetch(s) => ActionView::WaitAndFetch(*s),
            PageAction::Done(s) => ActionView::Done {
                pages: s.pages_fetched as nat,
                objects: s.objects_seen as nat,
                complete: s.complete,
            },
            PageAction::Fail(e) => ActionView::Fail(e@),
        }
    }
}

/// Nothing fetched yet.
pub open spec fn paging_start() -> PagingView {
    PagingView { pages: 0, objects: 0, retries: 0, cursor: None }
}

/// What a page that says it is not the last, but not where the next starts,
/// is called.
pub open spec fn lost_cursor(patient: bool) -> Seq<char> {
    if patient {
        "peer-backfill page reported !complete but omitted next_cursor"@
    } else {
        "page reported !complete but omitted next_cursor"@
    }
}

/// What a reply leads to. `patient` says whether a peer may ask to be asked
/// again later.
pub open spec fn paging_step(p: PagingView, reply: ReplyView, patient: bool) -> (
    PagingView,
    ActionView,
) {
    match reply {
        ReplyView::Failed(t) => (p, ActionView::Fail(PageFailure::Transport(t))),
        ReplyView::Answered { status, retry_after, page } => if patient && status == 429 {
            if p.retries >= THROTTLE_MAX_RETRIES {
                (p, ActionView::Fail(PageFailure::Status(status)))
            } else {
                (
                    PagingView { retries: p.retries + 1, ..p },
                    ActionView::WaitAndFetch(wait_of(retry_after)),
                )
            }
        } else if !prior_home_client::is_success(status) {
            (p, ActionView::Fail(PageFailure::Status(status)))
        } else {
            match page {
                None => (
                    p,
                    ActionView::Fail(PageFailure::Decode("malformed §10.5.2 envelope"@)),
                ),
                Some(read) => {
                    let pages = p.pages + 1;
                    let objects = p.objects + read.objects;
                    let counted = PagingView { pages, objects, ..p };
                    if read.complete {
                        (counted, ActionView::Done { pages, objects, complete: true })
                    } else if read.next_cursor is None {
                        (counted, ActionView::Fail(PageFailure::Decode(lost_cursor(patient))))
                    } else {
                        let moved = PagingView { cursor: read.next_cursor, ..counted };
                        if pages < MAX_RECOVERY_PAGES {
                            (moved, ActionView::Fetch)
                        } else {
                            (moved, ActionView::Done { pages, objects, complete: false })
                        }
                    }
                },
            }
        },
    }
}

/// The fetching of a surface, page by page.
#[derive(Debug)]
pub struct Paging {
    stats: SurfaceStats,
    retries: u32,
    cursor: Option<Vec<u8>>,
    patient: bool,
}

impl Paging {
    /// How far it has come.
    pub closed spec fn view(&self) -> PagingView {
        PagingView {
            pages: self.stats.pages_fetched as nat,
            objects: self.stats.objects_seen as nat,
            retries: self.retries as nat,
            cursor: match self.cursor {
                Some(c) => Some(c@),
                None => None,
            },
        }
    }

    /// Whether the peer may ask to be asked again later.
    pub closed spec fn is_patient(&self) -> bool {
        self.patient
    }

    /// Whether there may be another page to fetch.
    pub closed spec fn wf(&self) -> bool {
        self.stats.pages_fetched < MAX_RECOVERY_PAGES && self.retries <= THROTTLE_MAX_RETRIES
            && !self.stats.complete
    }

    /// Fetching from a former home.
    pub fn from_prior_home() -> (paging: Paging)
        ensures
            paging.wf(),
            paging@ == paging_start(),
            !paging.is_patient(),
    {
        Paging { stats: SurfaceStats::default(), retries: 0, cursor: None, patient: false }
    }

    /// Fetching from a peer.
    pub fn from_peer() -> (paging: Paging)
        ensures
            paging.wf(),
            paging@ == paging_start(),
            paging.is_patient(),
    {
        Paging { stats: SurfaceStats::default(), retries: 0, cursor: None, patient: true }
    }

    /// Where the next page starts.
    pub fn cursor(&self) -> (cursor: Option<&Vec<u8>>)
        ensures
            match cursor {
                Some(c) => self@.cursor == Some(c@),
                None => self@.cursor is None,
            },
    {
        match &self.cursor {
            Some(c) => Some(c),
            None => None,
        }
    }

    /// Takes a reply and tells what to do next.
    pub fn advance(&mut self, reply: PageReply) -> (action: PageAction)
        requires
            old(self).wf(),
            reply@ matches ReplyView::Answered { page: Some(p), .. } ==> old(self)@.objects
                + p.objects <= usize::MAX,
        ensures
            (final(self)@, action@) == paging_step(old(self)@, reply@, old(self).is_patient()),
            final(self).is_patient() == old(self).is_patient(),
            action is Fetch || action is WaitAndFetch ==> final(self).wf(),
    {
        let (status, retry_after, page): (u16, Option<u64>, Option<Page>) = match reply {
            PageReply::Failed(t) => return PageAction::Fail(PageError::Transport(t)),
            PageReply::Answered { status, retry_after, page } => (status, retry_after, page),
        };
        if self.patient && status == 429 {
            if self.retries >= THROTTLE_MAX_RETRIES {
                return PageAction::Fail(PageError::Status(status));
            }
            self.retries = self.retries + 1;
            return PageAction::WaitAndFetch(wait_for(retry_after));
        }
        if status < 200 || status > 299 {
            return PageAction::Fail(PageError::Status(status));
        }
        let read: Page = match page {
            Some(p) => p,
            None => return PageAction::Fail(PageError::Decode("malformed §10.5.2 envelope")),
        };
        self.stats.pages_fetched = self.stats.pages_fetched + 1;
        self.stats.objects_seen = self.stats.objects_seen + read.objects;
        if read.complete {
            return PageAction::Done(
                SurfaceStats {
                    pages_fetched: self.stats.pages_fetched,
                    objects_seen: self.stats.objects_seen,
                    complete: true,
                },
            );
        }
        match read.next_cursor {
            Some(next) => {
                self.cursor = Some(next);
            },
            None => {
                if self.patient {
                    return PageAction::Fail(
                        PageError::Decode(
                            "peer-backfill page reported !complete but omitted next_cursor",
                        ),
                    );
                }
                return PageAction::Fail(
                    PageError::Decode("page reported !complete but omitted next_cursor"),
                );
            },
        }
        if self.stats.pages_fetched < MAX_RECOVERY_PAGES {
            PageAction::Fetch
        } else {
            PageAction::Done(self.stats)
        }
    }
}

/// How far the fetching has come after a series of replies, and what is to
/// be done then.
pub open spec fn paging_run(replies: Seq<ReplyView>, patient: bool) -> (PagingView, ActionView)
    decreases replies.len(),
{
    if replies.len() == 0 {
        (paging_start(), ActionView::Fetch)
    } else {
        paging_step(paging_run(replies.drop_last(), patient).0, replies.last(), patient)
    }
}

/// Whether each of a series of replies is followed by another request.
pub open spec fn goes_on(replies: Seq<ReplyView>, patient: bool) -> bool
    decreases replies.len(),
{
    replies.len() == 0 || (goes_on(replies.drop_last(), patient) && (paging_run(
        replies,
        patient,
    ).1 is Fetch || paging_run(replies, patient).1 is WaitAndFetch))
}

/// Fetching a surface ends: after so many pages and so much patience, no
/// reply makes it go on.
pub proof fn law_fetching_ends(replies: Seq<ReplyView>, patient: bool)
    requires
        goes_on(replies, patient),
    ensures
        replies.len() < MAX_RECOVERY_PAGES + THROTTLE_MAX_RETRIES,
        paging_run(replies, patient).0.pages < MAX_RECOVERY_PAGES,
        paging_run(replies, patient).0.retries <= THROTTLE_MAX_RETRIES,
        replies.len() == paging_run(replies, patient).0.pages + paging_run(
            replies,
            patient,
        ).0.retries,
    decreases replies.len(),
{
    if replies.len() > 0 {
        law_fetching_ends(replies.drop_last(), patient);
    }
}

/// The seconds that a series of replies makes one wait.
pub open spec fn time_waited(replies: Seq<ReplyView>, patient: bool) -> int
    decreases replies.len(),
{
    if replies.len() == 0 {
        0
    } else {
        time_waited(replies.drop_last(), patient) + match paging_run(replies, patient).1 {
            ActionView::WaitAndFetch(s) => s as int,
            _ => 0,
        }
    }
}

/// No peer makes one wait longer than the patience for a surface allows.
pub proof fn law_waiting_is_bounded(replies: Seq<ReplyView>, patient: bool)
    requires
        goes_on(replies, patient),
    ensures
        time_waited(replies, patient) <= paging_run(replies, patient).0.retries
            * MAX_RETRY_AFTER_SECS,
        time_waited(replies, patient) <= THROTTLE_MAX_RETRIES * MAX_RETRY_AFTER_SECS,
    decreases replies.len(),
{
    law_fetching_ends(replies, patient);
    if replies.len() > 0 {
        law_waiting_is_bounded(replies.drop_last(), patient);
    }
}

/// A surface counts as complete only where its last page says that it is the
/// last.
pub proof fn law_complete_surface_saw_its_last_page(
    p: PagingView,
    reply: ReplyView,
    patient: bool,
)
    requires
        paging_step(p, reply, patient).1 is Done,
        paging_step(p, reply, patient).1->complete,
    ensures
        reply matches ReplyView::Answered { page: Some(read), .. } && read.complete,
{
}

/// The path of a page at a peer.
pub open spec fn page_uri(base: Seq<char>, cursor: Option<Seq<u8>>) -> Seq<char> {
    match cursor {
        Some(c) => base + "&since="@ + base64_text::base64_url_encoding(c),
        None => base,
    }
}

/// The path of a page at a peer.
pub fn page_path(base_path_query: &str, cursor: Option<&Vec<u8>>) -> (path: String)
    requires
        cursor matches Some(c) ==> c@.len() <= usize::MAX / 4,
    ensures
        path@ == page_uri(
            base_path_query@,
            match cursor {
                Some(c) => Some(c@),
                None => None,
            },
        ),
{
    let mut path: String = base_path_query.to_owned();
    if let Some(c) = cursor {
        path.append("&since=");
        path.append(to_base64_url(c.as_slice()).as_str());
    }
    path
}

/// What of a path is signed: what stands before the query.
pub fn signed_path(path: &str) -> (signed: &str)
    ensures
        match encode_utf8(path@).contains(0x3f) {
            true => exists|n: int|
                text::is_first_of(encode_utf8(path@), 0x3f, n) && encode_utf8(signed@)
                    == #[trigger] encode_utf8(path@).take(n),
            false => signed@ == path@,
        },
{
    match find_byte(path.as_bytes(), 0x3f) {
        Some(n) => {
            let parts: (&str, &str) = cut(path, n);
            proof {
                assert(encode_utf8(path@)[n as int] == 0x3f);
                assert(encode_utf8(path@).contains(0x3f));
            }
            parts.0
        },
        None => path,
    }
}

/// The path of what an author wrote.
pub fn by_author_path(author: &[u8; 32]) -> (path: String)
    ensures
        path@ == "/federation/v1/backfill/by-author?key="@ + text::hex(author@),
{
    let mut path: String = "/federation/v1/backfill/by-author?key=".to_owned();
    push_hex(&mut path, author.as_slice());
    path
}

/// Which edges of a key are asked for.
#[derive(Clone, Copy, Debug, PartialEq, Eq)]
pub enum EdgeDirection {
    /// Those that point at the key.
    Target,
    /// All.
    Both,
}

/// The path of the edges of a key.
pub fn edges_by_key_path(key: &[u8; 32], direction: EdgeDirection) -> (path: String)
    ensures
        path@ == "/federation/v1/backfill/edges-by-key?key="@ + text::hex(key@)
            + match direction {
            EdgeDirection::Target => "&direction=target"@,
            EdgeDirection::Both => "&direction=both"@,
        },
{
    let mut path: String = "/federation/v1/backfill/edges-by-key?key=".to_owned();
    push_hex(&mut path, key.as_slice());
    match direction {
        EdgeDirection::Target => {
            path.append("&direction=target");
        },
        EdgeDirection::Both => {
            path.append("&direction=both");
        },
    }
    path
}

/// A peer that may be asked.
#[derive(Debug)]
pub struct Candidate {
    pub key: [u8; 32],
    pub domain: String,
}

/// What is known of the peers that may be asked: keys and domains.
pub open spec fn candidates_view(list: Seq<Candidate>) -> Seq<(Seq<u8>, Seq<char>)> {
    Seq::new(list.len(), |i: int| (list[i].key@, list[i].domain@))
}

/// The stored peers with a sound key, in their order.
pub open spec fn sound_peers(rows: Seq<(Seq<u8>, Seq<char>)>) -> Seq<(Seq<u8>, Seq<char>)> {
    rows.filter(|r: (Seq<u8>, Seq<char>)| r.0.len() == 32)
}

/// What is stored of peers: keys and domains.
pub open spec fn rows_view(rows: Seq<(Vec<u8>, String)>) -> Seq<(Seq<u8>, Seq<char>)> {
    Seq::new(rows.len(), |i: int| (rows[i].0@, rows[i].1@))
}

/// The stored peers with a sound key, in their order.
pub fn list_active_peers(rows: &Vec<(Vec<u8>, String)>) -> (peers: Vec<Candidate>)
    ensures
        candidates_view(peers@) == sound_peers(rows_view(rows@)),
{
    let ghost all = rows_view(rows@);
    let ghost sound = |r: (Seq<u8>, Seq<char>)| r.0.len() == 32;
    let mut peers: Vec<Candidate> = Vec::new();
    let mut i: usize = 0;
    proof {
        reveal(Seq::filter);
        assert(all.take(0) =~= Seq::<(Seq<u8>, Seq<char>)>::empty());
        assert(candidates_view(peers@) =~= all.take(0).filter(sound));
    }
    while i < rows.len()
        invariant
            i <= rows.len(),
            all == rows_view(rows@),
            sound == |r: (Seq<u8>, Seq<char>)| r.0.len() == 32,
            candidates_view(peers@) == all.take(i as int).filter(sound),
        decreases rows.len() - i,
    {
        let ghost before = candidates_view(peers@);
        proof {
            reveal(Seq::filter);
            assert(all.take(i + 1).drop_last() =~= all.take(i as int));
            assert(all.take(i + 1).last() == (rows@[i as int].0@, rows@[i as int].1@));
        }
        if let Some(key) = key_from_slice(rows[i].0.as_slice()) {
            peers.push(Candidate { key, domain: rows[i].1.clone() });
            assert(candidates_view(peers@) =~= before.push(
                (rows@[i as int].0@, rows@[i as int].1@),
            ));
        }
        i += 1;
    }
    assert(all.take(i as int) =~= all);
    peers
}

/// Whether `n` is the first place of a key among the peers.
pub open spec fn is_place_of(list: Seq<(Seq<u8>, Seq<char>)>, key: Seq<u8>, n: int) -> bool {
    &&& 0 <= n < list.len()
    &&& list[n].0 == key
    &&& forall|i: int| 0 <= i < n ==> (#[trigger] list[i]).0 != key
}

/// Whether `after` is the list of peers with the preferred one first: moved
/// to the front where it is listed, and put there where it is not.
pub open spec fn is_promoted(
    after: Seq<(Seq<u8>, Seq<char>)>,
    before: Seq<(Seq<u8>, Seq<char>)>,
    prefer: Option<(Seq<u8>, Seq<char>)>,
) -> bool {
    match prefer {
        None => after == before,
        Some(p) => if exists|n: int| is_place_of(before, p.0, n) {
            exists|n: int| #[trigger]
                is_place_of(before, p.0, n) && after == seq![before[n]] + before.remove(n)
        } else {
            after == seq![p] + before
        },
    }
}

/// What is known of the preferred peer.
pub open spec fn preferred_view(prefer: Option<Candidate>) -> Option<(Seq<u8>, Seq<char>)> {
    match prefer {
        Some(p) => Some((p.key@, p.domain@)),
        None => None,
    }
}

fn place_of(list: &Vec<Candidate>, key: &[u8; 32]) -> (place: Option<usize>)
    ensures
        match place {
            Some(n) => is_place_of(candidates_view(list@), key@, n as int),
            None => forall|n: int| !is_place_of(candidates_view(list@), key@, n),
        },
{
    let ghost all = candidates_view(list@);
    let mut i: usize = 0;
    while i < list.len()
        invariant
            i <= list.len(),
            all == candidates_view(list@),
            forall|j: int| 0 <= j < i ==> (#[trigger] all[j]).0 != key@,
        decreases list.len() - i,
    {
        if same_key(&list[i].key, key) {
            assert(all[i as int].0 == key@);
            return Some(i);
        }
        assert(all[i as int].0 != key@);
        i += 1;
    }
    None
}

/// The peers that are asked for an author: the preferred one first, and no
/// more than there may be.
pub fn backfill_candidates(active: Vec<Candidate>, prefer: Option<Candidate>) -> (asked: Vec<
    Candidate,
>)
    requires
        active@.len() < usize::MAX,
    ensures
        exists|promoted: Seq<(Seq<u8>, Seq<char>)>| #[trigger]
            is_promoted(
                promoted,
                candidates_view(active@),
                preferred_view(prefer),
            ) && candidates_view(asked@) == (if promoted.len() > MAX_FALLBACK_PEERS {
                promoted.take(MAX_FALLBACK_PEERS as int)
            } else {
                promoted
            }),
{
    let ghost before = candidates_view(active@);
    let mut list: Vec<Candidate> = active;
    if let Some(p) = prefer {
        match place_of(&list, &p.key) {
            Some(n) => {
                assert(is_place_of(before, preferred_view(prefer)->Some_0.0, n as int));
                let hit: Candidate = list.remove(n);
                list.insert(0, hit);
                proof {
                    assert(candidates_view(list@) =~= seq![before[n as int]] + before.remove(
                        n as int,
                    ));
                }
            },
            None => {
                list.insert(0, p);
                let ghost first = preferred_view(prefer)->Some_0;
                assert(candidates_view(list@) =~= seq![first] + before);
            },
        }
    }
    let ghost promoted = candidates_view(list@);
    proof {
        assert(is_promoted(promoted, before, preferred_view(prefer)));
    }
    if list.len() > MAX_FALLBACK_PEERS {
        list.truncate(MAX_FALLBACK_PEERS);
        assert(candidates_view(list@) =~= promoted.take(MAX_FALLBACK_PEERS as int));
    }
    list
}

/// The peer that delivered an author's word is asked first, however many
/// peers there are.
pub proof fn law_preferred_peer_is_asked_first(
    promoted: Seq<(Seq<u8>, Seq<char>)>,
    before: Seq<(Seq<u8>, Seq<char>)>,
    prefer: (Seq<u8>, Seq<char>),
)
    requires
        is_promoted(promoted, before, Some(prefer)),
    ensures
        promoted.len() > 0,
        promoted[0].0 == prefer.0,
{
}

/// Whether a peer has what was asked for: it served all of it, and it was not
/// nothing.
pub open spec fn has_author(fetched: Option<SurfaceStats>) -> bool {
    fetched matches Some(s) && s.complete && s.objects_seen > 0
}

/// Whether a peer has what was asked for.
pub fn serves_author(fetched: &Option<SurfaceStats>) -> (yes: bool)
    ensures
        yes == has_author(*fetched),
{
    match fetched {
        Some(s) => s.complete && s.objects_seen > 0,
        None => false,
    }
}

/// What is to be done next for an author.
#[derive(Clone, Copy, Debug, PartialEq, Eq, Structural)]
pub enum BackfillAction {
    /// Fetch the content from the peer whose turn it is.
    FetchContent,
    /// Fetch the edges to the author from the same peer, and be done.
    FetchEdges,
    Done,
}

/// How far the peers have been asked for an author.
#[verifier::ext_equal]
pub struct BackfillView {
    pub asked: Seq<(Seq<u8>, Seq<char>)>,
    pub at: nat,
}

/// The state after the content was fetched from the peer whose turn it is, and
/// what is to be done next: the first peer that has the author is asked for
/// the edges too, and the others are not asked any more.
pub open spec fn backfill_step(b: BackfillView, content: Option<SurfaceStats>) -> (
    BackfillView,
    BackfillAction,
) {
    if has_author(content) {
        (b, BackfillAction::FetchEdges)
    } else {
        (
            BackfillView { at: b.at + 1, ..b },
            if b.at + 1 < b.asked.len() {
                BackfillAction::FetchContent
            } else {
                BackfillAction::Done
            },
        )
    }
}

/// The asking of peers for an author, one after another.
#[derive(Debug)]
pub struct AuthorBackfill {
    asked: Vec<Candidate>,
    at: usize,
}

impl AuthorBackfill {
    /// How far the peers have been asked.
    pub closed spec fn view(&self) -> BackfillView {
        BackfillView { asked: candidates_view(self.asked@), at: self.at as nat }
    }

    /// The peer whose turn it is.
    pub fn peer(&self) -> (peer: Option<&Candidate>)
        ensures
            match peer {
                Some(p) => self@.at < self@.asked.len() && (p.key@, p.domain@)
                    == self@.asked[self@.at as int],
                None => self@.at >= self@.asked.len(),
            },
    {
        if self.at < self.asked.len() {
            assert(self@.asked[self.at as int] == (
                self.asked@[self.at as int].key@,
                self.asked@[self.at as int].domain@,
            ));
            Some(&self.asked[self.at])
        } else {
            None
        }
    }

    /// Decides what is to be done after the content was fetched from the peer
    /// whose turn it is.
    pub fn advance(&mut self, content: &Option<SurfaceStats>) -> (action: BackfillAction)
        requires
            old(self)@.at < old(self)@.asked.len(),
        ensures
            (final(self)@, action) == backfill_step(old(self)@, *content),
    {
        if serves_author(content) {
            return BackfillAction::FetchEdges;
        }
        let count: usize = self.asked.len();
        self.at = self.at + 1;
        assert(self@ =~= BackfillView { at: old(self)@.at + 1, ..old(self)@ });
        if self.at < count {
            BackfillAction::FetchContent
        } else {
            BackfillAction::Done
        }
    }
}

/// Begins to ask peers for an author: the preferred one first, and no more
/// than there may be.
pub fn proactive_author_backfill(active: Vec<Candidate>, prefer: Option<Candidate>) -> (
backfill: AuthorBackfill)
    requires
        active@.len() < usize::MAX,
    ensures
        backfill@.at == 0,
        exists|promoted: Seq<(Seq<u8>, Seq<char>)>| #[trigger]
            is_promoted(
                promoted,
                candidates_view(active@),
                preferred_view(prefer),
            ) && backfill@.asked == (if promoted.len() > MAX_FALLBACK_PEERS {
                promoted.take(MAX_FALLBACK_PEERS as int)
            } else {
                promoted
            }),
{
    AuthorBackfill { asked: backfill_candidates(active, prefer), at: 0 }
}

/// The peer that is asked for the edges, where the peers answer so.
pub open spec fn edges_peer(b: BackfillView, outcomes: Seq<Option<SurfaceStats>>) -> Option<int>
    decreases b.asked.len() - b.at,
{
    if b.at >= b.asked.len() {
        None
    } else {
        let (next, action) = backfill_step(b, outcomes[b.at as int]);
        match action {
            BackfillAction::FetchEdges => Some(b.at as int),
            BackfillAction::FetchContent => edges_peer(next, outcomes),
            BackfillAction::Done => None,
        }
    }
}

/// The edges to an author come from the first peer that has the author, and
/// from nobody where none has.
pub proof fn law_first_peer_with_the_author_is_enough(
    b: BackfillView,
    outcomes: Seq<Option<SurfaceStats>>,
)
    requires
        outcomes.len() == b.asked.len(),
    ensures
        match edges_peer(b, outcomes) {
            Some(n) => b.at <= n < outcomes.len() && has_author(outcomes[n]) && forall|i: int|
                b.at <= i < n ==> !has_author(#[trigger] outcomes[i]),
            None => forall|i: int|
                b.at <= i < outcomes.len() ==> !has_author(#[trigger] outcomes[i]),
        },
    decreases b.asked.len() - b.at,
{
    if b.at < b.asked.len() {
        let (next, action) = backfill_step(b, outcomes[b.at as int]);
        if action is FetchContent {
            law_first_peer_with_the_author_is_enough(next, outcomes);
        }
    }
}

/// What came of asking one peer: nothing for a surface where it failed.
#[derive(Clone, Copy, Debug)]
pub struct PeerRun {
    pub content: Option<SurfaceStats>,
    pub edges: Option<SurfaceStats>,
}

/// Whether a surface was fetched to its end.
pub open spec fn is_whole(s: Option<SurfaceStats>) -> bool {
    s is Some && s->Some_0.complete
}

/// The pages fetched of one surface, over all peers.
pub open spec fn pages_of(runs: Seq<PeerRun>, edges: bool) -> nat
    decreases runs.len(),
{
    if runs.len() == 0 {
        0
    } else {
        let s = if edges {
            runs.last().edges
        } else {
            runs.last().content
        };
        pages_of(runs.drop_last(), edges) + match s {
            Some(s) => s.pages_fetched as nat,
            None => 0,
        }
    }
}

/// The objects seen of one surface, over all peers.
pub open spec fn objects_of(runs: Seq<PeerRun>, edges: bool) -> nat
    decreases runs.len(),
{
    if runs.len() == 0 {
        0
    } else {
        let s = if edges {
            runs.last().edges
        } else {
            runs.last().content
        };
        objects_of(runs.drop_last(), edges) + match s {
            Some(s) => s.objects_seen as nat,
            None => 0,
        }
    }
}

/// Whether the network gave everything: there were peers to ask, and each
/// served both surfaces to the end.
pub open spec fn network_complete(runs: Seq<PeerRun>) -> bool {
    runs.len() > 0 && forall|i: int|
        #![trigger runs[i]]
        0 <= i < runs.len() ==> is_whole(runs[i].content) && is_whole(runs[i].edges)
}

/// Whether the totals over a prefix of the peers fit.
pub open spec fn totals_fit(runs: Seq<PeerRun>) -> bool {
    &&& pages_of(runs, false) <= usize::MAX
    &&& pages_of(runs, true) <= usize::MAX
    &&& objects_of(runs, false) <= usize::MAX
    &&& objects_of(runs, true) <= usize::MAX
}

proof fn lemma_prefix_totals_fit(runs: Seq<PeerRun>, n: int)
    requires
        totals_fit(runs),
        0 <= n <= runs.len(),
    ensures
        totals_fit(runs.take(n)),
    decreases runs.len() - n,
{
    if n == runs.len() {
        assert(runs.take(n) =~= runs);
    } else {
        lemma_prefix_totals_fit(runs, n + 1);
        assert(runs.take(n + 1).drop_last() =~= runs.take(n));
    }
}

fn add_surface(total: &SurfaceStats, s: &Option<SurfaceStats>) -> (sum: SurfaceStats)
    requires
        s matches Some(x) ==> total.pages_fetched + x.pages_fetched <= usize::MAX
            && total.objects_seen + x.objects_seen <= usize::MAX,
    ensures
        sum.complete == total.complete,
        match *s {
            Some(x) => sum.pages_fetched == total.pages_fetched + x.pages_fetched
                && sum.objects_seen == total.objects_seen + x.objects_seen,
            None => sum.pages_fetched == total.pages_fetched && sum.objects_seen
                == total.objects_seen,
        },
{
    match s {
        Some(x) => SurfaceStats {
            pages_fetched: total.pages_fetched + x.pages_fetched,
            objects_seen: total.objects_seen + x.objects_seen,
            complete: total.complete,
        },
        None => SurfaceStats {
            pages_fetched: total.pages_fetched,
            objects_seen: total.objects_seen,
            complete: total.complete,
        },
    }
}

fn whole(s: &Option<SurfaceStats>) -> (yes: bool)
    ensures
        yes == is_whole(*s),
{
    match s {
        Some(x) => x.complete,
        None => false,
    }
}

/// What asking the network came to: content and edges over all peers.
pub fn recover_via_peer_network(runs: &Vec<PeerRun>) -> (totals: (SurfaceStats, SurfaceStats))
    requires
        totals_fit(runs@),
    ensures
        totals.0.pages_fetched == pages_of(runs@, false),
        totals.0.objects_seen == objects_of(runs@, false),
        totals.1.pages_fetched == pages_of(runs@, true),
        totals.1.objects_seen == objects_of(runs@, true),
        totals.0.complete == network_complete(runs@),
        totals.1.complete == network_complete(runs@),
{
    let mut content: SurfaceStats = SurfaceStats::default();
    let mut edges: SurfaceStats = SurfaceStats::default();
    let mut all_whole: bool = true;
    let mut i: usize = 0;
    assert(runs@.take(0) =~= Seq::<PeerRun>::empty());
    while i < runs.len()
        invariant
            i <= runs.len(),
            totals_fit(runs@),
            !content.complete,
            !edges.complete,
            content.pages_fetched == pages_of(runs@.take(i as int), false),
            content.objects_seen == objects_of(runs@.take(i as int), false),
            edges.pages_fetched == pages_of(runs@.take(i as int), true),
            edges.objects_seen == objects_of(runs@.take(i as int), true),
            all_whole == forall|j: int|
                #![trigger runs@[j]]
                0 <= j < i ==> is_whole(runs@[j].content) && is_whole(runs@[j].edges),
        decreases runs.len() - i,
    {
        proof {
            lemma_prefix_totals_fit(runs@, i + 1);
            assert(runs@.take(i + 1).drop_last() =~= runs@.take(i as int));
            assert(runs@.take(i + 1).last() == runs@[i as int]);
        }
        content = add_surface(&content, &runs[i].content);
        edges = add_surface(&edges, &runs[i].edges);
        if !whole(&runs[i].content) || !whole(&runs[i].edges) {
            all_whole = false;
        }
        i += 1;
    }
    assert(runs@.take(i as int) =~= runs@);
    let complete: bool = runs.len() > 0 && all_whole;
    (
        SurfaceStats {
            pages_fetched: content.pages_fetched,
            objects_seen: content.objects_seen,
            complete,
        },
        SurfaceStats {
            pages_fetched: edges.pages_fetched,
            objects_seen: edges.objects_seen,
            complete,
        },
    )
}

/// How a recovery went.
#[derive(Clone, Copy, Debug, PartialEq, Eq, Structural)]
pub struct RecoveryStats {
    pub primary_attempted: bool,
    pub primary_complete: bool,
    pub fallback_attempted: bool,
    pub fallback_complete: bool,
    pub objects_seen: usize,
}

impl Default for RecoveryStats {
    /// Nothing yet.
    fn default() -> (stats: Self)
        ensures
            stats == (RecoveryStats {
                primary_attempted: false,
                primary_complete: false,
                fallback_attempted: false,
                fallback_complete: false,
                objects_seen: 0,
            }),
    {
        RecoveryStats {
            primary_attempted: false,
            primary_complete: false,
            fallback_attempted: false,
            fallback_complete: false,
            objects_seen: 0,
        }
    }
}

impl RecoveryStats {
    /// Whether neither the former home nor the network gave everything.
    pub fn is_incomplete(&self) -> (yes: bool)
        ensures
            yes == !((self.primary_attempted && self.primary_complete) || (
            self.fallback_attempted && self.fallback_complete)),
    {
        let primary_ok: bool = self.primary_attempted && self.primary_complete;
        let fallback_ok: bool = self.fallback_attempted && self.fallback_complete;
        !(primary_ok || fallback_ok)
    }

    /// Takes in what the former home gave.
    pub fn after_primary(self, content: &SurfaceStats, edges: &SurfaceStats) -> (stats: Self)
        requires
            self.objects_seen + content.objects_seen + edges.objects_seen <= usize::MAX,
        ensures
            stats == (RecoveryStats {
                primary_attempted: true,
                primary_complete: content.complete && edges.complete,
                objects_seen: (self.objects_seen + content.objects_seen
                    + edges.objects_seen) as usize,
                ..self
            }),
    {
        RecoveryStats {
            primary_attempted: true,
            primary_complete: content.complete && edges.complete,
            fallback_attempted: self.fallback_attempted,
            fallback_complete: self.fallback_complete,
            objects_seen: self.objects_seen + content.objects_seen + edges.objects_seen,
        }
    }

    /// Whether the network is asked: always, but where the former home gave
    /// everything.
    pub fn needs_fallback(&self) -> (yes: bool)
        ensures
            yes == !self.primary_complete,
    {
        !self.primary_complete
    }

    /// Takes in what the network gave.
    pub fn after_fallback(self, content: &SurfaceStats, edges: &SurfaceStats) -> (stats: Self)
        requires
            self.objects_seen + content.objects_seen + edges.objects_seen <= usize::MAX,
        ensures
            stats == (RecoveryStats {
                fallback_attempted: true,
                fallback_complete: content.complete && edges.complete,
                objects_seen: (self.objects_seen + content.objects_seen
                    + edges.objects_seen) as usize,
                ..self
            }),
    {
        RecoveryStats {
            primary_attempted: self.primary_attempted,
            primary_complete: self.primary_complete,
            fallback_attempted: true,
            fallback_complete: content.complete && edges.complete,
            objects_seen: self.objects_seen + content.objects_seen + edges.objects_seen,
        }
    }
}

/// The surfaces of a former home: content and edges.
pub type HomeRun = (SurfaceStats, SurfaceStats);

/// What fetching one surface of a former home counts for: nothing where it
/// failed.
pub open spec fn counted_surface(fetched: Result<SurfaceStats, PageError>) -> SurfaceStats {
    match fetched {
        Ok(stats) => stats,
        Err(_) => SurfaceStats { pages_fetched: 0, objects_seen: 0, complete: false },
    }
}

fn count_surface(fetched: &Result<SurfaceStats, PageError>) -> (stats: SurfaceStats)
    ensures
        stats == counted_surface(*fetched),
{
    match fetched {
        Ok(stats) => *stats,
        Err(_) => SurfaceStats::default(),
    }
}

/// What a former home gave: each surface counts for itself, and one that
/// failed leaves the other as it is.
pub fn recover_via_prior_home(
    content: &Result<SurfaceStats, PageError>,
    edges: &Result<SurfaceStats, PageError>,
) -> (run: HomeRun)
    ensures
        run == (counted_surface(*content), counted_surface(*edges)),
{
    (count_surface(content), count_surface(edges))
}

/// Whether a former home gave everything.
pub open spec fn home_gave_all(primary: Option<HomeRun>) -> bool {
    primary is Some && primary->Some_0.0.complete && primary->Some_0.1.complete
}

/// Whether the peers are asked: exactly where the former home, if one was
/// known, did not give everything.
pub fn needs_peers(primary: &Option<HomeRun>) -> (yes: bool)
    ensures
        yes == !home_gave_all(*primary),
{
    match primary {
        Some((content, edges)) => !(content.complete && edges.complete),
        None => true,
    }
}

/// The whole of a recovery. `primary` is what the former home gave, where one
/// was known, and `network` what the peers gave, which counts only where the
/// former home did not give everything.
pub fn drive_recovery(primary: &Option<HomeRun>, network: &Vec<PeerRun>) -> (stats: RecoveryStats)
    requires
        totals_fit(network@),
        primary matches Some(p) ==> p.0.objects_seen + p.1.objects_seen + objects_of(
            network@,
            false,
        ) + objects_of(network@, true) <= usize::MAX,
        objects_of(network@, false) + objects_of(network@, true) <= usize::MAX,
    ensures
        stats.primary_attempted == primary is Some,
        stats.primary_complete == home_gave_all(*primary),
        stats.fallback_attempted == !stats.primary_complete,
        stats.fallback_complete == (stats.fallback_attempted && network_complete(network@)),
        stats.objects_seen == (match *primary {
            Some(p) => p.0.objects_seen + p.1.objects_seen,
            None => 0,
        }) + (if stats.fallback_attempted {
            objects_of(network@, false) + objects_of(network@, true)
        } else {
            0
        }),
{
    let mut stats: RecoveryStats = RecoveryStats::default();
    if let Some(p) = primary {
        stats = stats.after_primary(&p.0, &p.1);
    }
    if stats.needs_fallback() {
        let totals: (SurfaceStats, SurfaceStats) = recover_via_peer_network(network);
        stats = stats.after_fallback(&totals.0, &totals.1);
    }
    stats
}

/// Where an object that was fetched goes.
#[derive(Clone, Copy, Debug, PartialEq, Eq, Structural)]
pub enum Ingest {
    Edge,
    Content,
}

/// Where an object that was fetched as content goes: an edge goes where edges
/// go. `parsed` is what its payload parses to, where it has its frame.
pub fn ingest_route(parsed: &Option<Parsed>) -> (route: Ingest)
    ensures
        route == (if parsed matches Some(Ok(SignedPayload::TrustEdge(_))) {
            Ingest::Edge
        } else {
            Ingest::Content
        }),
{
    match parsed {
        Some(Ok(SignedPayload::TrustEdge(_))) => Ingest::Edge,
        _ => Ingest::Content,
    }
}

/// The authors that are being fetched.
#[derive(Debug)]
pub struct InFlightAuthors {
    keys: Vec<[u8; 32]>,
}

impl InFlightAuthors {
    /// The keys of the authors.
    pub closed spec fn view(&self) -> Set<Seq<u8>> {
        Set::new(|k: Seq<u8>| exists|i: int| 0 <= i < self.keys@.len() && self.keys@[i]@ == k)
    }

    /// No author is listed twice.
    pub closed spec fn wf(&self) -> bool {
        forall|i: int, j: int|
            0 <= i < j < self.keys@.len() ==> (#[trigger] self.keys@[i])@ != (
            #[trigger] self.keys@[j])@
    }

    /// No author yet.
    pub fn new() -> (authors: Self)
        ensures
            authors.wf(),
            authors@ == Set::<Seq<u8>>::empty(),
    {
        let authors = InFlightAuthors { keys: Vec::new() };
        assert(authors@ =~= Set::<Seq<u8>>::empty());
        authors
    }

    fn place_of(&self, author: &[u8; 32]) -> (place: Option<usize>)
        ensures
            match place {
                Some(n) => n < self.keys@.len() && self.keys@[n as int]@ == author@,
                None => forall|i: int|
                    0 <= i < self.keys@.len() ==> (#[trigger] self.keys@[i])@ != author@,
            },
    {
        let mut i: usize = 0;
        while i < self.keys.len()
            invariant
                i <= self.keys.len(),
                forall|j: int| 0 <= j < i ==> (#[trigger] self.keys@[j])@ != author@,
            decreases self.keys.len() - i,
        {
            if same_key(&self.keys[i], author) {
                return Some(i);
            }
            i += 1;
        }
        None
    }

    /// Claims an author, unless somebody has.
    pub fn try_claim(&mut self, author: [u8; 32]) -> (claimed: bool)
        requires
            old(self).wf(),
        ensures
            final(self).wf(),
            claimed == !old(self)@.contains(author@),
            final(self)@ == old(self)@.insert(author@),
    {
        match self.place_of(&author) {
            Some(n) => {
                assert(old(self)@.contains(author@));
                assert(self@ =~= old(self)@.insert(author@));
                false
            },
            None => {
                let ghost before = self.keys@;
                self.keys.push(author);
                proof {
                    let after = self.keys@;
                    assert(!old(self)@.contains(author@));
                    assert forall|k: Seq<u8>| self@.contains(k) <==> old(self)@.insert(
                        author@,
                    ).contains(k) by {
                        if old(self)@.contains(k) {
                            let i = choose|i: int| 0 <= i < before.len() && before[i]@ == k;
                            assert(after[i]@ == k);
                        }
                        if k == author@ {
                            assert(after[before.len() as int]@ == k);
                        }
                        if self@.contains(k) {
                            let i = choose|i: int| 0 <= i < after.len() && after[i]@ == k;
                            if i < before.len() {
                                assert(before[i]@ == k);
                            }
                        }
                    }
                    assert(self@ =~= old(self)@.insert(author@));
                }
                true
            },
        }
    }

    /// Gives an author up.
    pub fn release(&mut self, author: &[u8; 32])
        requires
            old(self).wf(),
        ensures
            final(self).wf(),
            final(self)@ == old(self)@.remove(author@),
    {
        match self.place_of(author) {
            Some(n) => {
                let ghost before = self.keys@;
                let _gone: [u8; 32] = self.keys.remove(n);
                proof {
                    let after = self.keys@;
                    assert(after =~= before.remove(n as int));
                    assert forall|k: Seq<u8>| self@.contains(k) <==> old(self)@.remove(
                        author@,
                    ).contains(k) by {
                        if old(self)@.contains(k) && k != author@ {
                            let i = choose|i: int| 0 <= i < before.len() && before[i]@ == k;
                            if i < n {
                                assert(after[i]@ == k);
                            } else {
                                assert(after[i - 1]@ == k);
                            }
                        }
                        if self@.contains(k) {
                            let i = choose|i: int| 0 <= i < after.len() && after[i]@ == k;
                            if i < n {
                                assert(before[i]@ == k);
                                assert(before[n as int]@ == author@);
                            } else {
                                assert(before[i + 1]@ == k);
                                assert(before[n as int]@ == author@);
                            }
                        }
                    }
                    assert(self@ =~= old(self)@.remove(author@));
                }
            },
            None => {
                assert(self@ =~= old(self)@.remove(author@));
            },
        }
    }
}

/// Whether a reply is a page that was read.
pub open spec fn is_page(reply: ReplyView) -> bool {
    reply matches ReplyView::Answered { status, page, .. } && 200 <= status <= 299 && page is Some
}

/// The page that a reply is.
pub open spec fn page_in(reply: ReplyView) -> PageView {
    reply->page->Some_0
}

/// The pages among a series of replies, in their order.
pub open spec fn pages_in(replies: Seq<ReplyView>) -> Seq<PageView>
    decreases replies.len(),
{
    if replies.len() == 0 {
        Seq::empty()
    } else if is_page(replies.last()) {
        pages_in(replies.drop_last()).push(page_in(replies.last()))
    } else {
        pages_in(replies.drop_last())
    }
}

/// The objects that pages carry together.
pub open spec fn objects_in(pages: Seq<PageView>) -> nat
    decreases pages.len(),
{
    if pages.len() == 0 {
        0
    } else {
        objects_in(pages.drop_last()) + pages.last().objects
    }
}

/// After any number of pages, and of waits between them, the next request
/// starts where the last page said that the next one starts, and at the start
/// before the first page. What was fetched is counted page by page.
pub proof fn law_each_page_starts_where_the_last_one_ended(
    replies: Seq<ReplyView>,
    patient: bool,
)
    requires
        goes_on(replies, patient),
    ensures
        ({
            let (reached, _) = paging_run(replies, patient);
            let pages = pages_in(replies);
            &&& reached.pages == pages.len()
            &&& reached.objects == objects_in(pages)
            &&& reached.cursor == if pages.len() == 0 {
                None
            } else {
                pages.last().next_cursor
            }
            &&& pages.len() > 0 ==> reached.cursor is Some
        }),
    decreases replies.len(),
{
    if replies.len() > 0 {
        law_each_page_starts_where_the_last_one_ended(replies.drop_last(), patient);
        let before = pages_in(replies.drop_last());
        if is_page(replies.last()) {
            assert(before.push(page_in(replies.last())).drop_last() =~= before);
        }
    }
}

/// A page that is not the last and says where the next one starts is followed
/// by a request for that one, until sixty-four pages were fetched. The last
/// page ends the fetching as complete, and the sixty-fourth as incomplete.
pub proof fn law_pages_are_fetched_to_the_end(p: PagingView, reply: ReplyView, patient: bool)
    requires
        is_page(reply),
    ensures
        ({
            let (after, action) = paging_step(p, reply, patient);
            let page = page_in(reply);
            &&& after.pages == p.pages + 1
            &&& after.objects == p.objects + page.objects
            &&& after.retries == p.retries
            &&& page.complete ==> action == ActionView::Done {
                pages: after.pages,
                objects: after.objects,
                complete: true,
            }
            &&& !page.complete ==> (page.next_cursor matches Some(next) ==> {
                &&& after.cursor == Some(next)
                &&& after.pages < 64 ==> action is Fetch
                &&& after.pages >= 64 ==> action == ActionView::Done {
                    pages: after.pages,
                    objects: after.objects,
                    complete: false,
                }
            })
            &&& !page.complete && page.next_cursor is None ==> action is Fail && action->Fail_0
                is Decode
        }),
{
}

/// What is no page ends the fetching with what came, and leaves what was
/// fetched and where the next page starts; only a peer that asks for patience
/// is asked again for the same page, up to five times, after the seconds that
/// it asks for, but no fewer than one and no more than sixty, which it also
/// gets where it names none.
pub proof fn law_only_patience_is_asked_for_again(
    p: PagingView,
    reply: ReplyView,
    patient: bool,
)
    requires
        !is_page(reply),
    ensures
        ({
            let (after, action) = paging_step(p, reply, patient);
            &&& after.pages == p.pages && after.objects == p.objects && after.cursor == p.cursor
            &&& reply matches ReplyView::Failed(t) ==> action == ActionView::Fail(
                PageFailure::Transport(t),
            )
            &&& reply matches ReplyView::Answered { status, retry_after, page } ==> {
                let waits = patient && status == 429 && p.retries < 5;
                &&& waits <==> action is WaitAndFetch
                &&& waits ==> after.retries == p.retries + 1 && (match retry_after {
                    Some(secs) => {
                        &&& 1 <= secs <= 60 ==> action == ActionView::WaitAndFetch(secs)
                        &&& secs > 60 ==> action == ActionView::WaitAndFetch(60)
                        &&& secs < 1 ==> action == ActionView::WaitAndFetch(1)
                    },
                    None => action == ActionView::WaitAndFetch(60),
                })
                &&& !waits ==> after.retries == p.retries && action is Fail
                &&& !waits && (status < 200 || status > 299) ==> action == ActionView::Fail(
                    PageFailure::Status(status),
                )
            }
        }),
{
}

/// The first page is asked for without a cursor, and every other one with the
/// cursor in the address after everything else.
pub proof fn law_the_cursor_is_in_the_address(
    base_path_query: &str,
    cursor: Option<&Vec<u8>>,
    path: String,
)
    requires
        call_ensures(page_path, (base_path_query, cursor), path),
    ensures
        cursor is None ==> path@ == base_path_query@,
        cursor matches Some(c) ==> path@ == base_path_query@ + "&since="@
            + base64_text::base64_url_encoding(c@),
{
}

/// A request for a page of a former home carries the challenge, its answer
/// and, from the second page on, where the page starts.
pub proof fn law_the_cursor_is_in_the_body(
    challenge_wire: &[u8],
    response_wire: &[u8],
    since: Option<&[u8]>,
    body: Vec<u8>,
)
    requires
        call_ensures(encode_bulk_fetch_body, (challenge_wire, response_wire, since), body),
    ensures
        cbor::cbor_decoding(body@) matches Some(CborView::Dict(entries)) && {
            &&& entries.len() == if since is Some {
                3nat
            } else {
                2nat
            }
            &&& entries[0] == (CborView::Text("challenge"@), CborView::Bytes(challenge_wire@))
            &&& entries[1] == (CborView::Text("response"@), CborView::Bytes(response_wire@))
            &&& since matches Some(s) ==> entries[2] == (
                CborView::Text("since"@),
                CborView::Bytes(s@),
            )
        },
{
}

/// A peer counts as one that has an author only where it served all that it
/// has, and that was something.
pub proof fn law_half_an_author_is_not_enough(fetched: &Option<SurfaceStats>, yes: bool)
    requires
        call_ensures(serves_author, (fetched,), yes),
    ensures
        yes <==> (*fetched matches Some(s) && s.complete && s.objects_seen > 0),
{
}

/// All active peers are asked for an author, each in its turn, up to sixteen:
/// the preferred one first, and the others in their order.
pub proof fn law_active_peers_are_asked_in_their_order(
    active: Vec<Candidate>,
    prefer: Option<Candidate>,
    asked: Vec<Candidate>,
)
    requires
        call_ensures(backfill_candidates, (active, prefer), asked),
    ensures
        asked@.len() <= 16,
        prefer matches Some(p) ==> asked@.len() > 0 && asked@[0].key@ == p.key@,
        prefer is None ==> {
            &&& asked@.len() == active@.len() || (asked@.len() == 16 && active@.len() > 16)
            &&& forall|i: int|
                0 <= i < asked@.len() ==> (#[trigger] asked@[i]).key@ == active@[i].key@
                    && asked@[i].domain@ == active@[i].domain@
        },
        prefer matches Some(p) ==> forall|n: int|
            0 <= n < active@.len() && n < 15 && (#[trigger] active@[n]).key@ != p.key@
                ==> exists|i: int|
                n <= i <= n + 1 && i < asked@.len() && (#[trigger] asked@[i]).key@
                    == active@[n].key@ && asked@[i].domain@ == active@[n].domain@,
{
    let before = candidates_view(active@);
    let chosen = candidates_view(asked@);
    let promoted = choose|promoted: Seq<(Seq<u8>, Seq<char>)>| #[trigger]
        is_promoted(promoted, before, preferred_view(prefer)) && chosen == (if promoted.len()
            > MAX_FALLBACK_PEERS {
            promoted.take(MAX_FALLBACK_PEERS as int)
        } else {
            promoted
        });
    assert(chosen.len() == asked@.len());
    assert forall|i: int| 0 <= i < asked@.len() implies (#[trigger] asked@[i]).key@
        == promoted[i].0 && asked@[i].domain@ == promoted[i].1 by {
        assert(chosen[i] == promoted[i]);
    }
    if prefer is None {
        assert forall|i: int| 0 <= i < asked@.len() implies (#[trigger] asked@[i]).key@
            == active@[i].key@ && asked@[i].domain@ == active@[i].domain@ by {
            assert(before[i] == promoted[i]);
        }
    }
    if let Some(p) = prefer {
        assert forall|n: int|
            0 <= n < active@.len() && n < 15 && (#[trigger] active@[n]).key@ != p.key@ implies
            exists|i: int|
            n <= i <= n + 1 && i < asked@.len() && (#[trigger] asked@[i]).key@ == active@[n].key@
                && asked@[i].domain@ == active@[n].domain@ by {
            assert(before[n] == (active@[n].key@, active@[n].domain@));
            assert(preferred_view(prefer) == Some((p.key@, p.domain@)));
            if exists|k: int| is_place_of(before, p.key@, k) {
                assert(is_promoted(promoted, before, Some((p.key@, p.domain@))));
                let place = choose|k: int| #[trigger]
                    is_place_of(before, (p.key@, p.domain@).0, k) && promoted == seq![before[k]]
                        + before.remove(k);
                assert(place != n);
                let i = if n < place {
                    n + 1
                } else {
                    n
                };
                assert(promoted[i] == before[n]);
                assert(asked@[i].key@ == active@[n].key@);
            } else {
                assert(promoted[n + 1] == before[n]);
                assert(asked@[n + 1].key@ == active@[n].key@);
            }
        }
    }
}

/// The peers that may be asked are those on record whose key is one, each with
/// its domain.
pub proof fn law_every_sound_peer_may_be_asked(
    rows: &Vec<(Vec<u8>, String)>,
    peers: Vec<Candidate>,
    n: int,
)
    requires
        call_ensures(list_active_peers, (rows,), peers),
    ensures
        0 <= n < rows@.len() && rows@[n].0@.len() == 32 ==> exists|i: int|
            0 <= i < peers@.len() && (#[trigger] peers@[i]).key@ == rows@[n].0@
                && peers@[i].domain@ == rows@[n].1@,
        0 <= n < peers@.len() ==> exists|i: int|
            0 <= i < rows@.len() && (#[trigger] rows@[i]).0@ == peers@[n].key@ && rows@[i].1@
                == peers@[n].domain@,
        peers@.len() <= rows@.len(),
{
    let all = rows_view(rows@);
    let sound = |r: (Seq<u8>, Seq<char>)| r.0.len() == 32;
    let kept = all.filter(sound);
    assert(candidates_view(peers@) == kept);
    all.lemma_filter_len(sound);
    if 0 <= n < rows@.len() && rows@[n].0@.len() == 32 {
        assert(all[n] == (rows@[n].0@, rows@[n].1@));
        all.lemma_filter_contains(sound, n);
        let i = choose|i: int| 0 <= i < kept.len() && kept[i] == all[n];
        assert(candidates_view(peers@)[i] == (peers@[i].key@, peers@[i].domain@));
    }
    if 0 <= n < peers@.len() {
        assert(kept[n] == (peers@[n].key@, peers@[n].domain@));
        all.lemma_filter_contains_rev(sound, kept[n]);
        let i = choose|i: int| 0 <= i < all.len() && all[i] == kept[n];
        assert(all[i] == (rows@[i].0@, rows@[i].1@));
    }
}

/// With a peer more, what the network gave is what it gave before and what the
/// peer gave, each surface for itself. It gave everything exactly where each
/// of its peers gave both surfaces to their end.
pub proof fn law_every_peer_counts(
    runs: &Vec<PeerRun>,
    totals: (SurfaceStats, SurfaceStats),
    more: &Vec<PeerRun>,
    with_more: (SurfaceStats, SurfaceStats),
    r: PeerRun,
)
    requires
        call_ensures(recover_via_peer_network, (runs,), totals),
        call_ensures(recover_via_peer_network, (more,), with_more),
        more@ == runs@.push(r),
    ensures
        with_more.0.objects_seen == totals.0.objects_seen + match r.content {
            Some(s) => s.objects_seen as int,
            None => 0,
        },
        with_more.1.objects_seen == totals.1.objects_seen + match r.edges {
            Some(s) => s.objects_seen as int,
            None => 0,
        },
        with_more.0.pages_fetched == totals.0.pages_fetched + match r.content {
            Some(s) => s.pages_fetched as int,
            None => 0,
        },
        with_more.1.pages_fetched == totals.1.pages_fetched + match r.edges {
            Some(s) => s.pages_fetched as int,
            None => 0,
        },
        with_more.0.complete == with_more.1.complete,
        with_more.0.complete <==> (runs@.len() == 0 || totals.0.complete) && (
        r.content matches Some(s) && s.complete) && (r.edges matches Some(s) && s.complete),
        runs@.len() == 0 ==> !totals.0.complete && !totals.1.complete && totals.0.objects_seen == 0
            && totals.1.objects_seen == 0,
{
    assert(more@.drop_last() =~= runs@);
    assert(more@.last() == r);
    assert forall|i: int| 0 <= i < runs@.len() implies more@[i] == #[trigger] runs@[i] by {}
    if network_complete(more@) {
        assert(more@[runs@.len() as int] == r);
        assert forall|i: int| #![trigger runs@[i]] 0 <= i < runs@.len() implies is_whole(
            runs@[i].content,
        ) && is_whole(runs@[i].edges) by {
            assert(is_whole(more@[i].content));
        }
    }
}

/// A recovery asks the peers exactly where no former home gave everything, and
/// is incomplete exactly where neither the former home nor the peers did. A
/// surface of a former home that failed counts for nothing, and leaves the
/// other as it is.
pub proof fn law_a_recovery_is_complete_by_one_source(
    content: &Result<SurfaceStats, PageError>,
    edges: &Result<SurfaceStats, PageError>,
    run: HomeRun,
    network: &Vec<PeerRun>,
    asks: bool,
    stats: RecoveryStats,
    incomplete: bool,
    alone: RecoveryStats,
    totals: (SurfaceStats, SurfaceStats),
)
    requires
        call_ensures(recover_via_prior_home, (content, edges), run),
        call_ensures(needs_peers, (&Some(run),), asks),
        call_ensures(drive_recovery, (&Some(run), network), stats),
        call_ensures(drive_recovery, (&None::<HomeRun>, network), alone),
        call_ensures(RecoveryStats::is_incomplete, (&stats,), incomplete),
        call_ensures(recover_via_peer_network, (network,), totals),
    ensures
        ({
            let whole = (content matches Ok(c) && c.complete) && (edges matches Ok(e)
                && e.complete);
            let from_home = (match *content {
                Ok(c) => c.objects_seen as int,
                Err(_) => 0,
            }) + (match *edges {
                Ok(e) => e.objects_seen as int,
                Err(_) => 0,
            });
            let from_peers = totals.0.objects_seen + totals.1.objects_seen;
            &&& asks <==> !whole
            &&& stats.primary_attempted && stats.primary_complete == whole
            &&& stats.fallback_attempted == !whole
            &&& stats.fallback_complete == (!whole && totals.0.complete)
            &&& incomplete <==> !whole && !totals.0.complete
            &&& stats.objects_seen == from_home + if whole {
                0
            } else {
                from_peers
            }
            &&& !alone.primary_attempted && !alone.primary_complete && alone.fallback_attempted
            &&& alone.fallback_complete == totals.0.complete
            &&& alone.objects_seen == from_peers
        }),
{
}

/// An object is taken in as an edge exactly where it is one.
pub proof fn law_edges_go_where_edges_go(parsed: &Option<Parsed>, route: Ingest)
    requires
        call_ensures(ingest_route, (parsed,), route),
    ensures
        route is Edge <==> (*parsed matches Some(Ok(p)) && p is TrustEdge),
{
}

/// A step of the asking of peers for an author: the peer that has the author
/// is asked for the edges too, and any other leads to the next one, to the
/// last.
pub proof fn law_peers_are_asked_until_one_has_the_author(
    b: BackfillView,
    content: Option<SurfaceStats>,
)
    ensures
        ({
            let (after, action) = backfill_step(b, content);
            let found = content matches Some(s) && s.complete && s.objects_seen > 0;
            &&& after.asked == b.asked
            &&& found ==> action is FetchEdges && after.at == b.at
            &&& !found ==> after.at == b.at + 1
            &&& !found && after.at < b.asked.len() ==> action is FetchContent
            &&& !found && after.at >= b.asked.len() ==> action is Done
        }),
{
}

/// With a row more there is a peer more, behind the others, where the row has
/// a key, and the same peers where it has none.
pub proof fn law_peers_come_in_the_order_of_their_rows(
    rows: &Vec<(Vec<u8>, String)>,
    peers: Vec<Candidate>,
    more: &Vec<(Vec<u8>, String)>,
    with_more: Vec<Candidate>,
    r: (Vec<u8>, String),
    i: int,
)
    requires
        call_ensures(list_active_peers, (rows,), peers),
        call_ensures(list_active_peers, (more,), with_more),
        more@ == rows@.push(r),
    ensures
        with_more@.len() == peers@.len() + if r.0@.len() == 32 {
            1int
        } else {
            0
        },
        0 <= i < peers@.len() ==> with_more@[i].key@ == peers@[i].key@ && with_more@[i].domain@
            == peers@[i].domain@,
        r.0@.len() == 32 ==> with_more@.last().key@ == r.0@ && with_more@.last().domain@ == r.1@,
{
    let all = rows_view(more@);
    assert(all.drop_last() =~= rows_view(rows@));
    assert(all.last() == (r.0@, r.1@));
    let before = candidates_view(peers@);
    let after = candidates_view(with_more@);
    reveal(Seq::filter);
    assert(before.len() == peers@.len() && after.len() == with_more@.len());
    if 0 <= i < peers@.len() {
        assert(before[i] == (peers@[i].key@, peers@[i].domain@));
        assert(after[i] == (with_more@[i].key@, with_more@[i].domain@));
    }
    if r.0@.len() == 32 {
        let last = with_more@.len() - 1;
        assert(after[last] == (with_more@[last].key@, with_more@[last].domain@));
    }
}

/// After a page that is not the last, the next request starts where that page
/// said, wherever the one before it started; a peer that asked for patience is
/// asked for the same page again.
pub proof fn law_the_next_request_starts_where_the_page_said(
    paging: &mut Paging,
    page: Page,
    status: u16,
    retry_after: Option<u64>,
    action: PageAction,
    after: &Paging,
    cursor: Option<&Vec<u8>>,
)
    requires
        old(paging).wf(),
        old(paging)@.objects + page.objects <= usize::MAX,
        call_ensures(
            Paging::advance,
            (paging, PageReply::Answered { status, retry_after, page: Some(page) }),
            action,
        ),
        *after == *final(paging),
        call_ensures(Paging::cursor, (after,), cursor),
    ensures
        200 <= status <= 299 && !page.complete ==> (page.next_cursor matches Some(next) ==> (cursor
            matches Some(c) && c@ == next@)),
        200 <= status <= 299 && !page.complete && page.next_cursor is Some && old(paging)@.pages
            < 63 ==> action is Fetch,
        200 <= status <= 299 && page.complete ==> (action matches PageAction::Done(stats)
            && stats.complete && stats.pages_fetched == old(paging)@.pages + 1
            && stats.objects_seen == old(paging)@.objects + page.objects),
        action is WaitAndFetch ==> final(paging)@.cursor == old(paging)@.cursor
            && final(paging)@.pages == old(paging)@.pages && status == 429,
{
}

/// The peers are asked one after another, each once: where one does not have
/// the author it is the turn of the next, and where it has, it stays its turn
/// for the edges.
pub proof fn law_the_next_peer_has_its_turn(
    backfill: &mut AuthorBackfill,
    content: &Option<SurfaceStats>,
    action: BackfillAction,
    after: &AuthorBackfill,
    peer: Option<&Candidate>,
)
    requires
        old(backfill)@.at < old(backfill)@.asked.len(),
        call_ensures(AuthorBackfill::advance, (backfill, content), action),
        *after == *final(backfill),
        call_ensures(AuthorBackfill::peer, (after,), peer),
    ensures
        ({
            let found = *content matches Some(s) && s.complete && s.objects_seen > 0;
            let b = old(backfill)@;
            let turn = if found {
                b.at as int
            } else {
                b.at as int + 1
            };
            &&& action is FetchEdges <==> found
            &&& action is FetchContent <==> !found && turn < b.asked.len()
            &&& peer is Some <==> turn < b.asked.len()
            &&& peer matches Some(p) ==> p.key@ == b.asked[turn].0 && p.domain@ == b.asked[turn].1
        }),
{
}

/// Fetching starts with nothing fetched and at the first page; only a peer may
/// ask for patience.
pub proof fn law_fetching_starts_at_the_first_page(
    from_home: Paging,
    from_peer: Paging,
)
    requires
        call_ensures(Paging::from_prior_home, (), from_home),
        call_ensures(Paging::from_peer, (), from_peer),
    ensures
        from_home@.pages == 0 && from_home@.objects == 0 && from_home@.retries == 0
            && from_home@.cursor is None,
        from_peer@.pages == 0 && from_peer@.objects == 0 && from_peer@.retries == 0
            && from_peer@.cursor is None,
        !from_home.is_patient() && from_peer.is_patient(),
{
}

/// Of a path all is signed but the query: what stands before the first
/// question mark.
pub proof fn law_queries_are_not_signed(path: &str, signed: &str)
    requires
        call_ensures(signed_path, (path,), signed),
    ensures
        !encode_utf8(signed@).contains(0x3f),
        encode_utf8(signed@).len() <= encode_utf8(path@).len(),
        encode_utf8(path@).take(encode_utf8(signed@).len() as int) == encode_utf8(signed@),
        encode_utf8(signed@).len() < encode_utf8(path@).len() ==> encode_utf8(path@)[encode_utf8(
            signed@,
        ).len() as int] == 0x3f,
{
    let b = encode_utf8(path@);
    if b.contains(0x3f) {
        let n = choose|n: int|
            text::is_first_of(b, 0x3f, n) && encode_utf8(signed@) == #[trigger] b.take(n);
        assert(b.take(n).len() == n);
        assert forall|i: int| 0 <= i < n implies b.take(n)[i] != 0x3f by {
            assert(b[i] != 0x3f);
        }
    } else {
        assert(b.take(b.len() as int) =~= b);
    }
}

/// What an author wrote and who trusts a key is asked for under the key in
/// hexadecimal.
pub proof fn law_keys_are_in_the_paths(
    key: &[u8; 32],
    by_author: String,
    edges_to: String,
    all_edges: String,
)
    requires
        call_ensures(by_author_path, (key,), by_author),
        call_ensures(edges_by_key_path, (key, EdgeDirection::Target), edges_to),
        call_ensures(edges_by_key_path, (key, EdgeDirection::Both), all_edges),
    ensures
        by_author@ == "/federation/v1/backfill/by-author?key="@ + text::hex(key@),
        edges_to@ == "/federation/v1/backfill/edges-by-key?key="@ + text::hex(key@)
            + "&direction=target"@,
        all_edges@ == "/federation/v1/backfill/edges-by-key?key="@ + text::hex(key@)
            + "&direction=both"@,
{
}

/// An author is fetched by one at a time: whoever claims them first has them,
/// nobody else does until they are given up, and other authors are not
/// affected.
pub proof fn law_authors_are_claimed_once(
    first: &mut InFlightAuthors,
    author: [u8; 32],
    claimed: bool,
    second: &mut InFlightAuthors,
    again: bool,
    third: &mut InFlightAuthors,
    unit: (),
    other: Seq<u8>,
)
    requires
        old(first).wf(),
        call_ensures(InFlightAuthors::try_claim, (first, author), claimed),
        *old(second) == *final(first),
        call_ensures(InFlightAuthors::try_claim, (second, author), again),
        *old(third) == *final(second),
        call_ensures(InFlightAuthors::release, (third, &author), unit),
    ensures
        claimed <==> !old(first)@.contains(author@),
        !again,
        !final(third)@.contains(author@),
        other != author@ ==> (final(third)@.contains(other) <==> old(first)@.contains(other)),
{
}

/// What a source gave is taken in with all that it gave: the source counts as
/// asked, and as complete where both surfaces are; what the other source gave
/// stays. The peers are needed until the former home is complete.
pub proof fn law_what_a_source_gave_is_taken_in(
    stats: RecoveryStats,
    content: &SurfaceStats,
    edges: &SurfaceStats,
    primary: RecoveryStats,
    fallback: RecoveryStats,
    needs: bool,
)
    requires
        stats.objects_seen + content.objects_seen + edges.objects_seen <= usize::MAX,
        call_ensures(RecoveryStats::after_primary, (stats, content, edges), primary),
        call_ensures(RecoveryStats::after_fallback, (stats, content, edges), fallback),
        call_ensures(RecoveryStats::needs_fallback, (&primary,), needs),
    ensures
        primary.primary_attempted && fallback.fallback_attempted,
        primary.primary_complete <==> content.complete && edges.complete,
        fallback.fallback_complete <==> content.complete && edges.complete,
        primary.objects_seen == stats.objects_seen + content.objects_seen + edges.objects_seen,
        fallback.objects_seen == primary.objects_seen,
        primary.fallback_attempted == stats.fallback_attempted && primary.fallback_complete
            == stats.fallback_complete,
        fallback.primary_attempted == stats.primary_attempted && fallback.primary_complete
            == stats.primary_complete,
        needs <==> !(content.complete && edges.complete),
{
}

/// The asking for an author begins with the first of the peers that are asked:
/// the preferred one, where there is one.
pub proof fn law_the_preferred_peer_has_the_first_turn(
    active: Vec<Candidate>,
    prefer: Option<Candidate>,
    backfill: AuthorBackfill,
    first: Option<&Candidate>,
)
    requires
        active@.len() < usize::MAX,
        call_ensures(proactive_author_backfill, (active, prefer), backfill),
        call_ensures(AuthorBackfill::peer, (&backfill,), first),
    ensures
        backfill@.at == 0 && backfill@.asked.len() <= 16,
        prefer matches Some(p) ==> (first matches Some(c) && c.key@ == p.key@),
        prefer is None && active@.len() > 0 ==> (first matches Some(c) && c.key@
            == active@[0].key@),
        prefer is None && active@.len() == 0 ==> first is None,
{
    let before = candidates_view(active@);
    let promoted = choose|promoted: Seq<(Seq<u8>, Seq<char>)>| #[trigger]
        is_promoted(promoted, before, preferred_view(prefer)) && backfill@.asked == (
        if promoted.len() > MAX_FALLBACK_PEERS {
            promoted.take(MAX_FALLBACK_PEERS as int)
        } else {
            promoted
        });
    if let Some(p) = prefer {
        law_preferred_peer_is_asked_first(promoted, before, (p.key@, p.domain@));
    } else if active@.len() > 0 {
        assert(before[0] == (active@[0].key@, active@[0].domain@));
    }
}

} // verus!
