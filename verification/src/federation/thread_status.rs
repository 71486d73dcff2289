//! Thread-status claims: what becomes of one that is pushed, and when this
//! instance makes one.

use vstd::prelude::*;

use crate::bytes;
use crate::bytes::{key_from_slice, same_key};
use crate::clock;
use crate::crypto;
use crate::federation::fields;
use crate::federation::fields::copy_optional_text;
use crate::federation::latest_wins;
use crate::federation::latest_wins::{new_wins, CurrentClaim};
use crate::federation::push::{Outcome, PushResult};
use crate::federation::signed::{
    ParseError, Parsed, SignedObject, SignedPayload, ThreadStatus, ThreadStatusKind,
};
use crate::federation::user_status;
use crate::federation::wire;
use crate::federation::wire::decode_signed_object;
use crate::text::same_text;

verus! {

/// How many claims one push may carry.
pub const MAX_THREAD_STATUS_BATCH: usize = 256;

/// How many hashes one backfill may ask for.
pub const MAX_THREAD_STATUS_HASHES: usize = 50;

/// Why a claim is refused.
#[derive(Clone, Copy, Debug, PartialEq, Eq)]
pub enum ThreadStatusRejectReason {
    InvalidSignature,
    SchemaInvalid,
    UnauthorizedSigner,
    UnknownClass,
}

/// What became of a claim.
#[derive(Clone, Copy, Debug, PartialEq, Eq)]
pub enum ThreadStatusResultKind {
    /// The claim is the one that stands.
    Applied,
    /// The claim is already stored.
    Duplicate,
    /// The thread, or the claim that this one follows, is not stored.
    Deferred,
    /// The claim is stored, but another one stands over it.
    Superseded,
    Rejected(ThreadStatusRejectReason),
}

impl ThreadStatusRejectReason {
    /// The wire form of the reason.
    pub open spec fn text(&self) -> Seq<char> {
        match self {
            ThreadStatusRejectReason::InvalidSignature => "invalid_signature"@,
            ThreadStatusRejectReason::SchemaInvalid => "schema_invalid"@,
            ThreadStatusRejectReason::UnauthorizedSigner => "unauthorized_signer"@,
            ThreadStatusRejectReason::UnknownClass => "unknown_class"@,
        }
    }

    /// The wire form of the reason.
    pub fn as_str(&self) -> (tag: &'static str)
        ensures
            tag@ == self.text(),
    {
        match self {
            ThreadStatusRejectReason::InvalidSignature => "invalid_signature",
            ThreadStatusRejectReason::SchemaInvalid => "schema_invalid",
            ThreadStatusRejectReason::UnauthorizedSigner => "unauthorized_signer",
            ThreadStatusRejectReason::UnknownClass => "unknown_class",
        }
    }
}

impl Outcome for ThreadStatusResultKind {
    open spec fn status_text(&self) -> Seq<char> {
        match self {
            ThreadStatusResultKind::Applied => "applied"@,
            ThreadStatusResultKind::Duplicate => "duplicate"@,
            ThreadStatusResultKind::Deferred => "deferred"@,
            ThreadStatusResultKind::Superseded => "superseded"@,
            ThreadStatusResultKind::Rejected(_) => "rejected"@,
        }
    }

    open spec fn reason_text(&self) -> Option<Seq<char>> {
        match self {
            ThreadStatusResultKind::Rejected(r) => Some(r.text()),
            _ => None,
        }
    }

    fn status_tag(&self) -> (tag: &'static str) {
        match self {
            ThreadStatusResultKind::Applied => "applied",
            ThreadStatusResultKind::Duplicate => "duplicate",
            ThreadStatusResultKind::Deferred => "deferred",
            ThreadStatusResultKind::Superseded => "superseded",
            ThreadStatusResultKind::Rejected(_) => "rejected",
        }
    }

    fn reason_tag(&self) -> (tag: Option<&'static str>) {
        match self {
            ThreadStatusResultKind::Rejected(r) => Some(r.as_str()),
            _ => None,
        }
    }
}

/// The result of one claim.
pub type ThreadStatusResult = PushResult<ThreadStatusResultKind>;

/// What the store holds that bears on one claim.
#[derive(Debug)]
pub struct ThreadStatusFacts {
    /// Whether the claim's hash is stored and, where it is, whether its
    /// payload is gone.
    pub stored_payload_gone: Option<bool>,
    /// The home in the thread's row, if the thread is stored; a row without
    /// one belongs to this instance.
    pub thread_home: Option<Option<Vec<u8>>>,
    /// The domain of the peer that is the thread's home, if it is one.
    pub peer_domain: Option<String>,
    /// Whether the claim that this one follows is stored.
    pub prior_stored: bool,
    /// The claim that stands for the thread so far.
    pub current: Option<CurrentClaim>,
}

/// What to do about one claim.
#[derive(Clone, Copy, Debug, PartialEq, Eq)]
pub struct ThreadStatusVerdict {
    pub status: ThreadStatusResultKind,
    /// Store the bytes.
    pub persist: bool,
    /// Whether the thread is locked from now on, where that is settled anew.
    pub set_locked: Option<bool>,
    /// Pass the bytes on, within the budget of the thread's home.
    pub forward: bool,
}

/// The domain of an instance, where it is known here: of this one, or of a
/// peer.
pub open spec fn known_domain(
    key: Seq<u8>,
    self_key: Seq<u8>,
    self_domain: Seq<char>,
    peer_domain: Option<String>,
) -> Option<Seq<char>> {
    if key == self_key {
        Some(self_domain)
    } else {
        fields::optional_text(peer_domain)
    }
}

/// The domain of the instance with a key, where it is known here;
/// `peer_domain` is the one on record for the peer with that key.
pub fn resolve_domain_for_key<'a>(
    key: &[u8; 32],
    self_key: &[u8; 32],
    self_domain: &'a str,
    peer_domain: &'a Option<String>,
) -> (domain: Option<&'a str>)
    ensures
        match domain {
            Some(d) => known_domain(key@, self_key@, self_domain@, *peer_domain) == Some(d@),
            None => known_domain(key@, self_key@, self_domain@, *peer_domain) is None,
        },
{
    if same_key(key, self_key) {
        Some(self_domain)
    } else {
        match peer_domain {
            Some(domain) => Some(domain.as_str()),
            None => None,
        }
    }
}

/// Whether the home's domain, where it is known here, is the one that the
/// claim names as its maker.
pub open spec fn names_its_home(s: ThreadStatus, home_domain: Option<Seq<char>>) -> bool {
    match home_domain {
        Some(domain) => s.signing_instance@ == domain,
        None => true,
    }
}

/// What becomes of a claim that is new here.
pub open spec fn new_claim_kind(
    s: ThreadStatus,
    hash: Seq<u8>,
    signature_ok: bool,
    self_key: Seq<u8>,
    self_domain: Seq<char>,
    facts: ThreadStatusFacts,
) -> ThreadStatusResultKind {
    let home = user_status::registered_home(facts.thread_home, self_key);
    if facts.thread_home is None {
        ThreadStatusResultKind::Deferred
    } else if home is None {
        ThreadStatusResultKind::Rejected(ThreadStatusRejectReason::UnauthorizedSigner)
    } else if !signature_ok {
        ThreadStatusResultKind::Rejected(ThreadStatusRejectReason::InvalidSignature)
    } else if !names_its_home(
        s,
        known_domain(home->Some_0, self_key, self_domain, facts.peer_domain),
    ) {
        ThreadStatusResultKind::Rejected(ThreadStatusRejectReason::UnauthorizedSigner)
    } else if s.prior_status_hash is Some && !facts.prior_stored {
        ThreadStatusResultKind::Deferred
    } else if latest_wins::wins(
        latest_wins::Claim { created_at: s.created_at, hash },
        latest_wins::stored_claim(facts.current),
    ) {
        ThreadStatusResultKind::Applied
    } else {
        ThreadStatusResultKind::Superseded
    }
}

/// What becomes of an object that came out of its wire form.
pub open spec fn claim_kind(
    parsed: Parsed,
    hash: Seq<u8>,
    signature_ok: bool,
    self_key: Seq<u8>,
    self_domain: Seq<char>,
    facts: ThreadStatusFacts,
) -> ThreadStatusResultKind {
    match facts.stored_payload_gone {
        Some(gone) => if gone {
            ThreadStatusResultKind::Rejected(ThreadStatusRejectReason::SchemaInvalid)
        } else {
            ThreadStatusResultKind::Duplicate
        },
        None => match parsed {
            Ok(SignedPayload::ThreadStatus(s)) => new_claim_kind(
                s,
                hash,
                signature_ok,
                self_key,
                self_domain,
                facts,
            ),
            Ok(_) => ThreadStatusResultKind::Rejected(ThreadStatusRejectReason::SchemaInvalid),
            Err(ParseError::UnknownClass) => ThreadStatusResultKind::Rejected(
                ThreadStatusRejectReason::UnknownClass,
            ),
            Err(ParseError::Invalid) => ThreadStatusResultKind::Rejected(
                ThreadStatusRejectReason::SchemaInvalid,
            ),
        },
    }
}

/// The claim that payload bytes parsed as.
pub open spec fn parsed_status(parsed: Parsed) -> Option<ThreadStatus> {
    match parsed {
        Ok(SignedPayload::ThreadStatus(s)) => Some(s),
        _ => None,
    }
}

/// Everything that follows from the status of a claim.
pub open spec fn verdict_of(
    status: ThreadStatusResultKind,
    claim: Option<ThreadStatus>,
) -> ThreadStatusVerdict {
    let stored = status is Applied || status is Superseded;
    ThreadStatusVerdict {
        status,
        persist: stored,
        set_locked: if status is Applied && claim is Some {
            Some(claim->Some_0.status is Locked)
        } else {
            None
        },
        forward: stored,
    }
}

fn judge_new_claim(
    s: &ThreadStatus,
    hash: &[u8; 32],
    signature_ok: bool,
    self_key: &[u8; 32],
    self_domain: &str,
    facts: &ThreadStatusFacts,
) -> (kind: ThreadStatusResultKind)
    ensures
        kind == new_claim_kind(*s, hash@, signature_ok, self_key@, self_domain@, *facts),
{
    if facts.thread_home.is_none() {
        return ThreadStatusResultKind::Deferred;
    }
    let home: [u8; 32] = match user_status::registered_home_of(&facts.thread_home, self_key) {
        Some(home) => home,
        None => {
            return ThreadStatusResultKind::Rejected(ThreadStatusRejectReason::UnauthorizedSigner);
        },
    };
    if !signature_ok {
        return ThreadStatusResultKind::Rejected(ThreadStatusRejectReason::InvalidSignature);
    }
    if let Some(domain) = resolve_domain_for_key(&home, self_key, self_domain, &facts.peer_domain) {
        if !same_text(s.signing_instance.as_str(), domain) {
            return ThreadStatusResultKind::Rejected(ThreadStatusRejectReason::UnauthorizedSigner);
        }
    }
    if s.prior_status_hash.is_some() && !facts.prior_stored {
        return ThreadStatusResultKind::Deferred;
    }
    if new_wins(s.created_at, hash, &facts.current) {
        ThreadStatusResultKind::Applied
    } else {
        ThreadStatusResultKind::Superseded
    }
}

/// What to do about an object whose hash is `hash` and whose signature under
/// the key of the thread's home held or did not hold.
pub fn judge_thread_status(
    parsed: &Parsed,
    hash: &[u8; 32],
    signature_ok: bool,
    self_key: &[u8; 32],
    self_domain: &str,
    facts: &ThreadStatusFacts,
) -> (verdict: ThreadStatusVerdict)
    ensures
        verdict == verdict_of(
            claim_kind(*parsed, hash@, signature_ok, self_key@, self_domain@, *facts),
            parsed_status(*parsed),
        ),
{
    let status: ThreadStatusResultKind = match facts.stored_payload_gone {
        Some(gone) => if gone {
            ThreadStatusResultKind::Rejected(ThreadStatusRejectReason::SchemaInvalid)
        } else {
            ThreadStatusResultKind::Duplicate
        },
        None => match parsed {
            Ok(SignedPayload::ThreadStatus(s)) => judge_new_claim(
                s,
                hash,
                signature_ok,
                self_key,
                self_domain,
                facts,
            ),
            Ok(_) => ThreadStatusResultKind::Rejected(ThreadStatusRejectReason::SchemaInvalid),
            Err(ParseError::UnknownClass) => ThreadStatusResultKind::Rejected(
                ThreadStatusRejectReason::UnknownClass,
            ),
            Err(ParseError::Invalid) => ThreadStatusResultKind::Rejected(
                ThreadStatusRejectReason::SchemaInvalid,
            ),
        },
    };
    let stored: bool = matches!(
        status,
        ThreadStatusResultKind::Applied | ThreadStatusResultKind::Superseded
    );
    let applied: bool = matches!(status, ThreadStatusResultKind::Applied);
    let set_locked: Option<bool> = match parsed {
        Ok(SignedPayload::ThreadStatus(s)) => if applied {
            Some(matches!(s.status, ThreadStatusKind::Locked))
        } else {
            None
        },
        _ => None,
    };
    ThreadStatusVerdict { status, persist: stored, set_locked, forward: stored }
}

/// Whether the signature of an object holds under the key of the home that
/// the thread's row names.
pub open spec fn home_signature_ok(
    payload: Seq<u8>,
    signature: Seq<u8>,
    thread_home: Option<Option<Vec<u8>>>,
    self_key: Seq<u8>,
) -> bool {
    match user_status::registered_home(thread_home, self_key) {
        Some(home) => crypto::ed25519_verifies(home, payload, signature),
        None => false,
    }
}

/// The row that records the claim that stands for a thread.
#[derive(Debug)]
pub struct ThreadStatusRow {
    pub thread_id: [u8; 16],
    pub status: &'static str,
    pub signing_instance: String,
    pub reason: Option<String>,
    pub created_at: i64,
    pub hash: [u8; 32],
}

/// Whether `row` records a claim: what the claim says, the name that its maker
/// gives itself among it, with its own hash and timestamp.
pub open spec fn records_claim(row: ThreadStatusRow, s: ThreadStatus, hash: Seq<u8>) -> bool {
    &&& row.thread_id == s.thread_id
    &&& row.status@ == s.status.text()
    &&& row.signing_instance@ == s.signing_instance@
    &&& fields::optional_text(row.reason) == fields::optional_text(s.reason)
    &&& row.created_at == s.created_at as i64
    &&& row.hash@ == hash
}

/// The row that records a claim as the one that stands.
pub fn status_row(s: &ThreadStatus, hash: &[u8; 32]) -> (row: ThreadStatusRow)
    ensures
        records_claim(row, *s, hash@),
{
    ThreadStatusRow {
        thread_id: s.thread_id,
        status: s.status.as_str(),
        signing_instance: s.signing_instance.clone(),
        reason: copy_optional_text(&s.reason),
        created_at: s.created_at as i64,
        hash: *hash,
    }
}

/// What became of a pushed object.
#[derive(Debug)]
pub struct AppliedThreadStatus {
    pub result: ThreadStatusResult,
    pub verdict: ThreadStatusVerdict,
    /// The row to record, where the claim is the one that stands from now on.
    pub row: Option<ThreadStatusRow>,
    /// The home whose budget pays for passing the bytes on, where they are to
    /// be.
    pub charge: Option<[u8; 32]>,
}

/// Takes one pushed object through the whole state machine. The claim is
/// checked against the key of the thread's home, whichever peer it came
/// through.
pub fn apply_one_thread_status(
    wire_bytes: &[u8],
    parsed: &Parsed,
    self_key: &[u8; 32],
    self_domain: &str,
    facts: &ThreadStatusFacts,
) -> (applied: AppliedThreadStatus)
    ensures
        applied.result.status == applied.verdict.status,
        match wire::signed_object_in(wire_bytes@) {
            None => applied.result.canonical_hash@ == crypto::sha256_digest(wire_bytes@)
                && applied.verdict == verdict_of(
                ThreadStatusResultKind::Rejected(ThreadStatusRejectReason::SchemaInvalid),
                None,
            ),
            Some((payload, signature)) => {
                &&& applied.result.canonical_hash@ == crypto::sha256_digest(payload)
                &&& applied.verdict == verdict_of(
                    claim_kind(
                        *parsed,
                        crypto::sha256_digest(payload),
                        home_signature_ok(payload, signature, facts.thread_home, self_key@),
                        self_key@,
                        self_domain@,
                        *facts,
                    ),
                    parsed_status(*parsed),
                )
            },
        },
        match applied.row {
            Some(row) => applied.verdict.status is Applied && (parsed_status(*parsed) matches Some(s)
                && records_claim(row, s, applied.result.canonical_hash@)),
            None => !(applied.verdict.status is Applied),
        },
        user_status::key_view(applied.charge) == (if applied.verdict.forward {
            user_status::registered_home(facts.thread_home, self_key@)
        } else {
            None
        }),
{
    let object: Option<SignedObject> = decode_signed_object(wire_bytes);
    match &object {
        None => {
            let status = ThreadStatusResultKind::Rejected(ThreadStatusRejectReason::SchemaInvalid);
            AppliedThreadStatus {
                result: PushResult { canonical_hash: crypto::sha256(wire_bytes), status },
                verdict: ThreadStatusVerdict {
                    status,
                    persist: false,
                    set_locked: None,
                    forward: false,
                },
                row: None,
                charge: None,
            }
        },
        Some(o) => {
            let hash: [u8; 32] = crypto::sha256(o.payload.as_slice());
            let home: Option<[u8; 32]> = user_status::registered_home_of(
                &facts.thread_home,
                self_key,
            );
            let signature_ok: bool = match &home {
                Some(home) => crypto::signature_holds(
                    home,
                    o.payload.as_slice(),
                    o.signature.as_slice(),
                ),
                None => false,
            };
            let verdict: ThreadStatusVerdict = judge_thread_status(
                parsed,
                &hash,
                signature_ok,
                self_key,
                self_domain,
                facts,
            );
            let row: Option<ThreadStatusRow> = match parsed {
                Ok(SignedPayload::ThreadStatus(s)) => if matches!(
                    verdict.status,
                    ThreadStatusResultKind::Applied
                ) {
                    Some(status_row(s, &hash))
                } else {
                    None
                },
                _ => None,
            };
            AppliedThreadStatus {
                result: PushResult { canonical_hash: hash, status: verdict.status },
                verdict,
                row,
                charge: if verdict.forward {
                    home
                } else {
                    None
                },
            }
        },
    }
}

/// A claim locks or unlocks a thread exactly when it is the one that stands
/// from now on, and only one that the thread's home signed can.
pub proof fn law_only_the_home_locks(
    parsed: Parsed,
    hash: Seq<u8>,
    signature_ok: bool,
    self_key: Seq<u8>,
    self_domain: Seq<char>,
    facts: ThreadStatusFacts,
)
    ensures
        ({
            let kind = claim_kind(parsed, hash, signature_ok, self_key, self_domain, facts);
            let verdict = verdict_of(kind, parsed_status(parsed));
            &&& verdict.set_locked is Some <==> kind is Applied
            &&& kind is Applied ==> signature_ok && user_status::registered_home(
                facts.thread_home,
                self_key,
            ) is Some
            &&& verdict.set_locked is Some ==> verdict.set_locked == Some(
                parsed_status(parsed)->Some_0.status is Locked,
            )
        }),
{
}

/// What this instance knows of a thread for which it is to make a claim.
#[derive(Debug)]
pub struct LocalThread {
    /// The home in the thread's row; none for a thread of this instance.
    pub home_instance: Option<Vec<u8>>,
    /// The key of the thread's author.
    pub author_key: Vec<u8>,
    /// The hash of the claim that stands so far.
    pub current_status_hash: Option<Vec<u8>>,
}

/// A claim of this instance, to be signed, recorded and passed on.
#[derive(Debug)]
pub struct LocalClaim {
    pub claim: ThreadStatus,
    /// The key of the users whose peers are to have the claim.
    pub routing_key: Vec<u8>,
}

/// Whether `claim` says of a thread what this instance means to say, as what
/// follows the claim that stands so far.
pub open spec fn is_local_claim(
    claim: LocalClaim,
    thread: LocalThread,
    thread_id: [u8; 16],
    status: ThreadStatusKind,
    reason: Option<String>,
    self_domain: Seq<char>,
    now: u64,
) -> bool {
    &&& claim.claim.thread_id == thread_id
    &&& claim.claim.status == status
    &&& claim.claim.signing_instance@ == self_domain
    &&& fields::optional_text(claim.claim.reason) == fields::optional_text(reason)
    &&& claim.claim.created_at == now
    &&& user_status::key_view(claim.claim.prior_status_hash) == (match thread.current_status_hash {
        Some(hash) => if hash@.len() == 32 {
            Some(hash@)
        } else {
            None
        },
        None => None,
    })
    &&& claim.routing_key@ == thread.author_key@
}

/// The claim that this instance makes about a thread, if it makes one: it does
/// for threads of its own alone.
pub fn dispatch_local_thread_status(
    thread: &Option<LocalThread>,
    thread_id: &[u8; 16],
    status: ThreadStatusKind,
    reason: &Option<String>,
    self_domain: &str,
) -> (claim: Option<LocalClaim>)
    ensures
        match claim {
            Some(c) => *thread matches Some(t) && t.home_instance is None && exists|now: u64|
                #[trigger] is_local_claim(
                    c,
                    t,
                    *thread_id,
                    status,
                    *reason,
                    self_domain@,
                    now,
                ),
            None => !(*thread matches Some(t) && t.home_instance is None),
        },
{
    dispatch_local_thread_status_at(
        thread,
        thread_id,
        status,
        reason,
        self_domain,
        clock::now_ms(),
    )
}

/// The claim that this instance makes about a thread at a time.
pub fn dispatch_local_thread_status_at(
    thread: &Option<LocalThread>,
    thread_id: &[u8; 16],
    status: ThreadStatusKind,
    reason: &Option<String>,
    self_domain: &str,
    now_ms: u64,
) -> (claim: Option<LocalClaim>)
    ensures
        match claim {
            Some(c) => *thread matches Some(t) && t.home_instance is None && is_local_claim(
                c,
                t,
                *thread_id,
                status,
                *reason,
                self_domain@,
                now_ms,
            ),
            None => !(*thread matches Some(t) && t.home_instance is None),
        },
{
    let t: &LocalThread = match thread {
        Some(t) => t,
        None => return None,
    };
    if t.home_instance.is_some() {
        return None;
    }
    let prior_status_hash: Option<[u8; 32]> = match &t.current_status_hash {
        Some(hash) => key_from_slice(hash.as_slice()),
        None => None,
    };
    Some(
        LocalClaim {
            claim: ThreadStatus {
                thread_id: *thread_id,
                status,
                signing_instance: self_domain.to_string(),
                reason: copy_optional_text(reason),
                created_at: now_ms,
                prior_status_hash,
            },
            routing_key: vstd::slice::slice_to_vec(t.author_key.as_slice()),
        },
    )
}

/// A claim that the home of a thread makes is taken in by every instance that
/// holds the thread and what the claim follows, and knows the home's domain or
/// no domain for it.
pub proof fn law_claims_of_the_home_are_taken_in(
    claim: LocalClaim,
    thread: LocalThread,
    thread_id: [u8; 16],
    status: ThreadStatusKind,
    reason: Option<String>,
    home_domain: Seq<char>,
    now: u64,
    hash: Seq<u8>,
    self_key: Seq<u8>,
    self_domain: Seq<char>,
    facts: ThreadStatusFacts,
)
    requires
        is_local_claim(claim, thread, thread_id, status, reason, home_domain, now),
        facts.stored_payload_gone is None,
        user_status::registered_home(facts.thread_home, self_key) matches Some(home) && (
        known_domain(home, self_key, self_domain, facts.peer_domain) is None || known_domain(
            home,
            self_key,
            self_domain,
            facts.peer_domain,
        ) == Some(home_domain)),
        thread.current_status_hash is Some ==> facts.prior_stored,
    ensures
        ({
            let parsed: Parsed = Ok(SignedPayload::ThreadStatus(claim.claim));
            let kind = claim_kind(parsed, hash, true, self_key, self_domain, facts);
            kind is Applied || kind is Superseded
        }),
{
}

/// A claim about a thread that is new here waits for the thread and for the
/// claim that it follows. It is refused where the thread's row names no home,
/// where its signature does not hold, and where it names another maker than
/// the domain that is known for the home. Every other one is stored and passed
/// on, and becomes the claim that stands exactly where none stands yet, or it
/// is later than the one that does, or as late with a smaller hash.
pub proof fn law_claims_about_known_threads_are_taken_in(
    s: ThreadStatus,
    hash: &[u8; 32],
    signature_ok: bool,
    self_key: &[u8; 32],
    self_domain: &str,
    facts: &ThreadStatusFacts,
    verdict: ThreadStatusVerdict,
)
    requires
        call_ensures(
            judge_thread_status,
            (
                &Ok(SignedPayload::ThreadStatus(s)),
                hash,
                signature_ok,
                self_key,
                self_domain,
                facts,
            ),
            verdict,
        ),
        facts.stored_payload_gone is None,
    ensures
        facts.thread_home is None ==> verdict.status is Deferred && !verdict.persist,
        facts.thread_home matches Some(row) ==> {
            let here = row is None || row->Some_0@ == self_key@;
            let no_home = row is Some && row->Some_0@.len() != 32;
            let named = if here {
                s.signing_instance@ == self_domain@
            } else {
                facts.peer_domain is None || s.signing_instance@ == facts.peer_domain->Some_0@
            };
            &&& no_home ==> verdict.status == ThreadStatusResultKind::Rejected(
                ThreadStatusRejectReason::UnauthorizedSigner,
            )
            &&& !no_home && !signature_ok ==> verdict.status == ThreadStatusResultKind::Rejected(
                ThreadStatusRejectReason::InvalidSignature,
            )
            &&& !no_home && signature_ok && !named ==> verdict.status
                == ThreadStatusResultKind::Rejected(ThreadStatusRejectReason::UnauthorizedSigner)
            &&& !no_home && signature_ok && named && s.prior_status_hash is Some
                && !facts.prior_stored ==> verdict.status is Deferred && !verdict.persist
            &&& !no_home && signature_ok && named && (s.prior_status_hash is None
                || facts.prior_stored) ==> {
                &&& verdict.persist && verdict.forward
                &&& facts.current is None ==> verdict.status is Applied
                &&& facts.current matches Some(c) ==> {
                    &&& c.created_at < s.created_at && s.created_at > 0
                        ==> verdict.status is Applied
                    &&& c.created_at > s.created_at ==> verdict.status is Superseded
                    &&& c.created_at == s.created_at ==> if bytes::lex_less(hash@, c.hash@) {
                        verdict.status is Applied
                    } else {
                        verdict.status is Superseded
                    }
                }
            }
        },
        verdict.status is Applied && s.status is Locked ==> verdict.set_locked == Some(true),
        verdict.status is Applied && s.status is Open ==> verdict.set_locked == Some(false),
        !(verdict.status is Applied) ==> verdict.set_locked is None,
        verdict.persist <==> verdict.status is Applied || verdict.status is Superseded,
        verdict.forward == verdict.persist,
{
}

/// An object that is stored already is a duplicate, one whose payload was
/// erased is refused, and so is one that is no claim about a thread. None of
/// them changes anything.
pub proof fn law_other_objects_lock_nothing(
    parsed: &Parsed,
    hash: &[u8; 32],
    signature_ok: bool,
    self_key: &[u8; 32],
    self_domain: &str,
    facts: &ThreadStatusFacts,
    verdict: ThreadStatusVerdict,
)
    requires
        call_ensures(
            judge_thread_status,
            (parsed, hash, signature_ok, self_key, self_domain, facts),
            verdict,
        ),
        facts.stored_payload_gone is Some || !(*parsed matches Ok(
            SignedPayload::ThreadStatus(_),
        )),
    ensures
        facts.stored_payload_gone == Some(false) ==> verdict.status is Duplicate,
        facts.stored_payload_gone == Some(true) ==> verdict.status
            == ThreadStatusResultKind::Rejected(ThreadStatusRejectReason::SchemaInvalid),
        facts.stored_payload_gone is None ==> verdict.status
            == ThreadStatusResultKind::Rejected(
            if *parsed == Parsed::Err(ParseError::UnknownClass) {
                ThreadStatusRejectReason::UnknownClass
            } else {
                ThreadStatusRejectReason::SchemaInvalid
            },
        ),
        !verdict.persist && !verdict.forward && verdict.set_locked is None,
{
}

/// A pushed claim is stored only where the home that the thread's row names
/// signed its payload. What is recorded of one that stands is what it says,
/// and the home is charged for what is passed on, and for nothing else.
pub proof fn law_what_locks_a_thread_is_what_its_home_claimed(
    wire_bytes: &[u8],
    parsed: &Parsed,
    self_key: &[u8; 32],
    self_domain: &str,
    facts: &ThreadStatusFacts,
    applied: AppliedThreadStatus,
)
    requires
        call_ensures(
            apply_one_thread_status,
            (wire_bytes, parsed, self_key, self_domain, facts),
            applied,
        ),
    ensures
        applied.result.status == applied.verdict.status,
        applied.row is Some <==> applied.verdict.status is Applied,
        applied.charge is Some <==> applied.verdict.forward,
        wire::signed_object_in(wire_bytes@) is None ==> applied.result.canonical_hash@
            == crypto::sha256_digest(wire_bytes@) && applied.result.status
            == ThreadStatusResultKind::Rejected(ThreadStatusRejectReason::SchemaInvalid)
            && !applied.verdict.persist,
        wire::signed_object_in(wire_bytes@) matches Some((payload, signature)) ==> {
            &&& applied.result.canonical_hash@ == crypto::sha256_digest(payload)
            &&& applied.verdict.persist ==> (facts.thread_home matches Some(row) && {
                let home = if row is Some {
                    row->Some_0@
                } else {
                    self_key@
                };
                &&& home.len() == 32
                &&& crypto::ed25519_verifies(home, payload, signature)
                &&& applied.charge matches Some(key) && key@ == home
            })
            &&& facts.stored_payload_gone is None && facts.thread_home is Some ==> (
            *parsed matches Ok(SignedPayload::ThreadStatus(_)) ==> {
                let row = facts.thread_home->Some_0;
                let home = if row is Some {
                    row->Some_0@
                } else {
                    self_key@
                };
                home.len() == 32 ==> (applied.result.status == ThreadStatusResultKind::Rejected(
                    ThreadStatusRejectReason::InvalidSignature,
                ) <==> !crypto::ed25519_verifies(home, payload, signature))
            })
            &&& applied.row matches Some(row) ==> (*parsed matches Ok(
                SignedPayload::ThreadStatus(s),
            ) && {
                &&& row.thread_id == s.thread_id
                &&& s.status is Open ==> row.status@ == "open"@
                &&& s.status is Locked ==> row.status@ == "locked"@
                &&& row.signing_instance@ == s.signing_instance@
                &&& row.reason is Some <==> s.reason is Some
                &&& s.reason matches Some(r) ==> row.reason->Some_0@ == r@
                &&& s.created_at <= i64::MAX ==> row.created_at == s.created_at
                &&& row.hash@ == crypto::sha256_digest(payload)
            })
        },
{
}

/// This instance makes claims about its own threads, and about no other. Such
/// a claim follows the one that stands so far, says what was asked for under
/// the own domain, and goes to the peers of the thread's author.
pub proof fn law_own_threads_are_spoken_for(
    thread: &Option<LocalThread>,
    thread_id: &[u8; 16],
    status: ThreadStatusKind,
    reason: &Option<String>,
    self_domain: &str,
    now_ms: u64,
    claim: Option<LocalClaim>,
)
    requires
        call_ensures(
            dispatch_local_thread_status_at,
            (thread, thread_id, status, reason, self_domain, now_ms),
            claim,
        ),
    ensures
        claim is Some <==> (*thread matches Some(t) && t.home_instance is None),
        claim matches Some(c) ==> {
            let t = thread->Some_0;
            &&& c.claim.thread_id == *thread_id
            &&& c.claim.status == status
            &&& c.claim.signing_instance@ == self_domain@
            &&& c.claim.reason is Some <==> reason is Some
            &&& *reason matches Some(r) ==> c.claim.reason->Some_0@ == r@
            &&& c.claim.created_at == now_ms
            &&& t.current_status_hash is None ==> c.claim.prior_status_hash is None
            &&& t.current_status_hash matches Some(h) ==> h@.len() == 32 ==> (
            c.claim.prior_status_hash matches Some(prior) && prior@ == h@)
            &&& c.routing_key@ == t.author_key@
        },
{
}

/// What became of a claim is told in words: one for each outcome, and one for
/// each reason of a refusal.
pub proof fn law_outcomes_have_their_words(outcome: ThreadStatusResultKind)
    ensures
        outcome is Applied ==> outcome.status_text() == "applied"@,
        outcome is Duplicate ==> outcome.status_text() == "duplicate"@,
        outcome is Deferred ==> outcome.status_text() == "deferred"@,
        outcome is Superseded ==> outcome.status_text() == "superseded"@,
        outcome is Rejected ==> outcome.status_text() == "rejected"@,
        outcome.reason_text() is Some <==> outcome is Rejected,
        outcome matches ThreadStatusResultKind::Rejected(r) ==> outcome.reason_text()
            == Some(
            match r {
                ThreadStatusRejectReason::InvalidSignature => "invalid_signature"@,
                ThreadStatusRejectReason::SchemaInvalid => "schema_invalid"@,
                ThreadStatusRejectReason::UnauthorizedSigner => "unauthorized_signer"@,
                ThreadStatusRejectReason::UnknownClass => "unknown_class"@,
            },
        ),
{
}

/// The domain of an instance is its own where it is this one, and the one on
/// record where it is a peer.
pub proof fn law_domains_are_on_record(
    key: &[u8; 32],
    self_key: &[u8; 32],
    self_domain: &str,
    peer_domain: &Option<String>,
    domain: Option<&str>,
)
    requires
        call_ensures(resolve_domain_for_key, (key, self_key, self_domain, peer_domain), domain),
    ensures
        key@ == self_key@ ==> (domain matches Some(d) && d@ == self_domain@),
        key@ != self_key@ ==> match *peer_domain {
            Some(p) => domain matches Some(d) && d@ == p@,
            None => domain is None,
        },
{
}

/// What is recorded of a claim that stands is what the claim says.
pub proof fn law_rows_say_what_the_claim_says(
    s: &ThreadStatus,
    hash: &[u8; 32],
    row: ThreadStatusRow,
)
    requires
        call_ensures(status_row, (s, hash), row),
        s.created_at <= i64::MAX,
    ensures
        row.thread_id == s.thread_id,
        row.status@ == s.status.text(),
        row.signing_instance@ == s.signing_instance@,
        fields::optional_text(row.reason) == fields::optional_text(s.reason),
        row.created_at == s.created_at,
        row.hash@ == hash@,
{
}

/// At whatever time it is made, a claim of this instance is made for its own
/// threads alone, and says what was asked for under this instance's domain.
pub proof fn law_own_claims_say_what_was_asked(
    thread: &Option<LocalThread>,
    thread_id: &[u8; 16],
    status: ThreadStatusKind,
    reason: &Option<String>,
    self_domain: &str,
    claim: Option<LocalClaim>,
)
    requires
        call_ensures(
            dispatch_local_thread_status,
            (thread, thread_id, status, reason, self_domain),
            claim,
        ),
    ensures
        claim is Some <==> (*thread matches Some(t) && t.home_instance is None),
        claim matches Some(c) ==> {
            &&& c.claim.thread_id == *thread_id
            &&& c.claim.status == status
            &&& c.claim.signing_instance@ == self_domain@
            &&& fields::optional_text(c.claim.reason) == fields::optional_text(*reason)
            &&& c.routing_key@ == thread->Some_0.author_key@
            &&& thread->Some_0.current_status_hash is None ==> c.claim.prior_status_hash is None
            &&& thread->Some_0.current_status_hash matches Some(h) ==> h@.len() == 32 ==> (
            c.claim.prior_status_hash matches Some(p) && p@ == h@)
        },
{
}

} // verus!
