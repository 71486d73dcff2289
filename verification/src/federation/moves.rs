//! Move declarations pushed by peers: what becomes of each of them.

use vstd::prelude::*;

use crate::bytes;
use crate::bytes::same_key;
use crate::crypto;
use crate::federation::latest_wins;
use crate::federation::latest_wins::{new_wins, CurrentClaim};
use crate::federation::push;
use crate::federation::push::{Outcome, PushResult};
use crate::federation::signed::{Move, ParseError, Parsed, SignedObject, SignedPayload};
use crate::federation::wire;
use crate::federation::wire::decode_signed_object;

verus! {

/// How many moves a peer may push in an hour.
pub const MAX_MOVE_OBJECTS_PER_HOUR: u32 = 1_000;

/// How many moves one push may carry.
pub const MAX_MOVE_BATCH: usize = 64;

/// How far the timestamp of a move may lie from the clock.
pub const MAX_CLOCK_SKEW_MS: u64 = 300_000;

/// Why a move is refused.
#[derive(Clone, Copy, Debug, PartialEq, Eq)]
pub enum MoveRejectReason {
    InvalidSignature,
    SchemaInvalid,
    SkewExceeded,
    UnknownClass,
    WrongClass,
}

/// What became of a move.
#[derive(Clone, Copy, Debug, PartialEq, Eq)]
pub enum MoveStatus {
    /// The move is the user's current one.
    Applied,
    /// The move is already stored.
    Duplicate,
    /// The move that it follows is not stored.
    Deferred,
    /// The move is stored, but another one stands over it.
    Superseded,
    Rejected(MoveRejectReason),
}

impl MoveRejectReason {
    /// The wire form of the reason.
    pub open spec fn text(&self) -> Seq<char> {
        match self {
            MoveRejectReason::InvalidSignature => "invalid_signature"@,
            MoveRejectReason::SchemaInvalid => "schema_invalid"@,
            MoveRejectReason::SkewExceeded => "skew_exceeded"@,
            MoveRejectReason::UnknownClass => "unknown_class"@,
            MoveRejectReason::WrongClass => "wrong_class"@,
        }
    }

    /// The wire form of the reason.
    pub fn as_str(&self) -> (tag: &'static str)
        ensures
            tag@ == self.text(),
    {
        match self {
            MoveRejectReason::InvalidSignature => "invalid_signature",
            MoveRejectReason::SchemaInvalid => "schema_invalid",
            MoveRejectReason::SkewExceeded => "skew_exceeded",
            MoveRejectReason::UnknownClass => "unknown_class",
            MoveRejectReason::WrongClass => "wrong_class",
        }
    }
}

impl Outcome for MoveStatus {
    open spec fn status_text(&self) -> Seq<char> {
        match self {
            MoveStatus::Applied => "applied"@,
            MoveStatus::Duplicate => "duplicate"@,
            MoveStatus::Deferred => "deferred"@,
            MoveStatus::Superseded => "superseded"@,
            MoveStatus::Rejected(_) => "rejected"@,
        }
    }

    open spec fn reason_text(&self) -> Option<Seq<char>> {
        match self {
            MoveStatus::Rejected(r) => Some(r.text()),
            _ => None,
        }
    }

    fn status_tag(&self) -> (tag: &'static str) {
        match self {
            MoveStatus::Applied => "applied",
            MoveStatus::Duplicate => "duplicate",
            MoveStatus::Deferred => "deferred",
            MoveStatus::Superseded => "superseded",
            MoveStatus::Rejected(_) => "rejected",
        }
    }

    fn reason_tag(&self) -> (tag: Option<&'static str>) {
        match self {
            MoveStatus::Rejected(r) => Some(r.as_str()),
            _ => None,
        }
    }
}

/// The result of one move.
pub type MoveResult = PushResult<MoveStatus>;

/// The moves of a push, each in its wire form.
#[derive(Debug)]
pub struct MovesBody {
    pub moves: Vec<Vec<u8>>,
}

impl MovesBody {
    /// Reads the body `{ "moves": [bytes, ...] }`.
    pub fn decode(bytes: &[u8]) -> (body: Option<MovesBody>)
        ensures
            match body {
                Some(b) => push::list_in(bytes@, "moves"@) == Some(push::byte_strings(b.moves@)),
                None => push::list_in(bytes@, "moves"@) is None,
            },
    {
        match push::decode_list(bytes, "moves") {
            Some(moves) => Some(MovesBody { moves }),
            None => None,
        }
    }
}

/// Why a push is refused as a whole.
#[derive(Clone, Copy, Debug, PartialEq, Eq)]
pub enum MovesPushError {
    Malformed,
    EmptyBatch,
    BatchTooLarge,
    RateLimited,
}

impl MovesPushError {
    /// The wire form of the error.
    pub open spec fn text(&self) -> Seq<char> {
        match self {
            MovesPushError::Malformed => "malformed"@,
            MovesPushError::EmptyBatch => "empty_batch"@,
            MovesPushError::BatchTooLarge => "batch_too_large"@,
            MovesPushError::RateLimited => "rate_limited"@,
        }
    }

    /// The wire form of the error.
    pub fn as_str(&self) -> (tag: &'static str)
        ensures
            tag@ == self.text(),
    {
        match self {
            MovesPushError::Malformed => "malformed",
            MovesPushError::EmptyBatch => "empty_batch",
            MovesPushError::BatchTooLarge => "batch_too_large",
            MovesPushError::RateLimited => "rate_limited",
        }
    }
}

/// The moves of a push, or why it is refused before its sender's budget is
/// charged with them.
pub fn open_moves_push(body: &[u8]) -> (moves: Result<Vec<Vec<u8>>, MovesPushError>)
    ensures
        match push::list_in(body@, "moves"@) {
            None => moves == Err::<Vec<Vec<u8>>, _>(MovesPushError::Malformed),
            Some(list) => if list.len() == 0 {
                moves == Err::<Vec<Vec<u8>>, _>(MovesPushError::EmptyBatch)
            } else if list.len() > MAX_MOVE_BATCH {
                moves == Err::<Vec<Vec<u8>>, _>(MovesPushError::BatchTooLarge)
            } else {
                moves matches Ok(m) && push::byte_strings(m@) == list
            },
        },
{
    let moves: Vec<Vec<u8>> = match MovesBody::decode(body) {
        Some(b) => b.moves,
        None => return Err(MovesPushError::Malformed),
    };
    assert(push::byte_strings(moves@).len() == moves@.len());
    if moves.len() == 0 {
        return Err(MovesPushError::EmptyBatch);
    }
    if moves.len() > MAX_MOVE_BATCH {
        return Err(MovesPushError::BatchTooLarge);
    }
    Ok(moves)
}

/// The moves of a push that its sender's budget for the hour covers: a push
/// that it does not cover is refused as a whole.
pub fn admit_moves(moves: Vec<Vec<u8>>, within_budget: bool) -> (admitted: Result<
    Vec<Vec<u8>>,
    MovesPushError,
>)
    ensures
        admitted == if within_budget {
            Ok::<Vec<Vec<u8>>, MovesPushError>(moves)
        } else {
            Err(MovesPushError::RateLimited)
        },
{
    if within_budget {
        Ok(moves)
    } else {
        Err(MovesPushError::RateLimited)
    }
}

/// What the store holds that bears on one move.
#[derive(Debug)]
pub struct MoveFacts {
    /// Whether the move's hash is stored and, where it is, whether its
    /// payload is gone.
    pub stored_payload_gone: Option<bool>,
    /// Whether the move that this one names as the one before it is stored.
    pub prior_stored: bool,
    /// The move that stands for the user so far.
    pub current: Option<CurrentClaim>,
}

/// What a move does to the home that is recorded for its user.
#[derive(Clone, Copy, Debug, PartialEq, Eq)]
pub enum Rehome {
    /// Nothing.
    Keep,
    /// The user lives on this instance from now on.
    Here,
    /// The user lives on the instance that the move names.
    Away,
}

/// What to do about one move.
#[derive(Clone, Copy, Debug, PartialEq, Eq)]
pub struct MoveVerdict {
    pub status: MoveStatus,
    /// Store the bytes and index the move in the user's chain.
    pub persist: bool,
    /// What to record as the user's home.
    pub rehome: Rehome,
    /// Give up every local authority to act as the user.
    pub dispose_authority: bool,
    /// Pass the bytes on to every peer.
    pub forward: bool,
}

/// Whether the class of a payload is one that peers exchange.
pub open spec fn is_exchanged_class(p: SignedPayload) -> bool {
    match p {
        SignedPayload::FedEnvelope => false,
        SignedPayload::RegistrationChallenge(_) => false,
        SignedPayload::PriorHomeChallenge(_) => false,
        SignedPayload::PriorHomeResponse(_) => false,
        _ => true,
    }
}

/// The distance between two points in time.
pub open spec fn distance(a: u64, b: u64) -> int {
    if a >= b {
        a - b
    } else {
        b - a
    }
}

/// What becomes of a move that is new here, by its own content, its hash, the
/// verdict on its signature and what the store holds.
pub open spec fn new_move_status(
    m: Move,
    hash: Seq<u8>,
    signature_ok: bool,
    facts: MoveFacts,
    now_ms: u64,
) -> MoveStatus {
    if !signature_ok {
        MoveStatus::Rejected(MoveRejectReason::InvalidSignature)
    } else if distance(now_ms, m.created_at) > MAX_CLOCK_SKEW_MS {
        MoveStatus::Rejected(MoveRejectReason::SkewExceeded)
    } else if m.prior_move_hash is Some && !facts.prior_stored {
        MoveStatus::Deferred
    } else if latest_wins::wins(
        latest_wins::Claim { created_at: m.created_at, hash },
        latest_wins::stored_claim(facts.current),
    ) {
        MoveStatus::Applied
    } else {
        MoveStatus::Superseded
    }
}

/// What becomes of an object that came out of its wire form.
pub open spec fn move_status(
    parsed: Parsed,
    hash: Seq<u8>,
    signature_ok: bool,
    facts: MoveFacts,
    now_ms: u64,
) -> MoveStatus {
    match facts.stored_payload_gone {
        Some(gone) => if gone {
            MoveStatus::Rejected(MoveRejectReason::SchemaInvalid)
        } else {
            MoveStatus::Duplicate
        },
        None => match parsed {
            Err(ParseError::UnknownClass) => MoveStatus::Rejected(MoveRejectReason::UnknownClass),
            Err(ParseError::Invalid) => MoveStatus::Rejected(MoveRejectReason::SchemaInvalid),
            Ok(SignedPayload::Move(m)) => new_move_status(m, hash, signature_ok, facts, now_ms),
            Ok(p) => if is_exchanged_class(p) {
                MoveStatus::Rejected(MoveRejectReason::WrongClass)
            } else {
                MoveStatus::Rejected(MoveRejectReason::UnknownClass)
            },
        },
    }
}

/// The move that payload bytes parsed as.
pub open spec fn parsed_move(parsed: Parsed) -> Option<Move> {
    match parsed {
        Ok(SignedPayload::Move(m)) => Some(m),
        _ => None,
    }
}

/// Everything that follows from the status of a move.
pub open spec fn verdict_of(status: MoveStatus, mv: Option<Move>, local: Seq<u8>) -> MoveVerdict {
    let stored = status is Applied || status is Superseded;
    MoveVerdict {
        status,
        persist: stored,
        rehome: if status is Applied {
            if mv is Some && mv->Some_0.to_instance_key@ == local {
                Rehome::Here
            } else {
                Rehome::Away
            }
        } else {
            Rehome::Keep
        },
        dispose_authority: stored && mv is Some && mv->Some_0.from_instance_key@ == local
            && mv->Some_0.to_instance_key@ != local,
        forward: stored || (status is Duplicate && mv is Some),
    }
}

fn exchanged_class(p: &SignedPayload) -> (exchanged: bool)
    ensures
        exchanged == is_exchanged_class(*p),
{
    match p {
        SignedPayload::FedEnvelope => false,
        SignedPayload::RegistrationChallenge(_) => false,
        SignedPayload::PriorHomeChallenge(_) => false,
        SignedPayload::PriorHomeResponse(_) => false,
        _ => true,
    }
}

fn judge_new_move(
    m: &Move,
    hash: &[u8; 32],
    signature_ok: bool,
    facts: &MoveFacts,
    now_ms: u64,
) -> (status: MoveStatus)
    ensures
        status == new_move_status(*m, hash@, signature_ok, *facts, now_ms),
{
    if !signature_ok {
        return MoveStatus::Rejected(MoveRejectReason::InvalidSignature);
    }
    let skew: u64 = if now_ms >= m.created_at {
        now_ms - m.created_at
    } else {
        m.created_at - now_ms
    };
    if skew > MAX_CLOCK_SKEW_MS {
        return MoveStatus::Rejected(MoveRejectReason::SkewExceeded);
    }
    if m.prior_move_hash.is_some() && !facts.prior_stored {
        return MoveStatus::Deferred;
    }
    if new_wins(m.created_at, hash, &facts.current) {
        MoveStatus::Applied
    } else {
        MoveStatus::Superseded
    }
}

/// What to do about an object whose hash is `hash` and whose signature under
/// the key of the move in it, if it is one, held or did not hold.
pub fn judge_move(
    parsed: &Parsed,
    hash: &[u8; 32],
    signature_ok: bool,
    facts: &MoveFacts,
    local_key: &[u8; 32],
    now_ms: u64,
) -> (verdict: MoveVerdict)
    ensures
        verdict == verdict_of(
            move_status(*parsed, hash@, signature_ok, *facts, now_ms),
            parsed_move(*parsed),
            local_key@,
        ),
{
    let status: MoveStatus = match facts.stored_payload_gone {
        Some(gone) => if gone {
            MoveStatus::Rejected(MoveRejectReason::SchemaInvalid)
        } else {
            MoveStatus::Duplicate
        },
        None => match parsed {
            Err(ParseError::UnknownClass) => MoveStatus::Rejected(MoveRejectReason::UnknownClass),
            Err(ParseError::Invalid) => MoveStatus::Rejected(MoveRejectReason::SchemaInvalid),
            Ok(SignedPayload::Move(m)) => judge_new_move(m, hash, signature_ok, facts, now_ms),
            Ok(p) => if exchanged_class(p) {
                MoveStatus::Rejected(MoveRejectReason::WrongClass)
            } else {
                MoveStatus::Rejected(MoveRejectReason::UnknownClass)
            },
        },
    };
    let stored: bool = matches!(status, MoveStatus::Applied | MoveStatus::Superseded);
    let applied: bool = matches!(status, MoveStatus::Applied);
    let duplicate: bool = matches!(status, MoveStatus::Duplicate);
    match parsed {
        Ok(SignedPayload::Move(m)) => {
            let from_here: bool = same_key(&m.from_instance_key, local_key);
            let to_here: bool = same_key(&m.to_instance_key, local_key);
            MoveVerdict {
                status,
                persist: stored,
                rehome: if applied {
                    if to_here {
                        Rehome::Here
                    } else {
                        Rehome::Away
                    }
                } else {
                    Rehome::Keep
                },
                dispose_authority: stored && from_here && !to_here,
                forward: stored || duplicate,
            }
        },
        _ => MoveVerdict {
            status,
            persist: stored,
            rehome: if applied {
                Rehome::Away
            } else {
                Rehome::Keep
            },
            dispose_authority: false,
            forward: stored,
        },
    }
}

/// Whether the signature of a parsed move holds under the key of its user.
pub open spec fn move_signature_ok(
    payload: Seq<u8>,
    signature: Seq<u8>,
    parsed: Parsed,
) -> bool {
    match parsed {
        Ok(SignedPayload::Move(m)) => crypto::ed25519_verifies(m.key@, payload, signature),
        _ => false,
    }
}

/// Takes one pushed object through the whole state machine: `parsed` is what
/// the payload in `wire_bytes` parsed as, and `facts` what the store holds
/// about it.
pub fn apply_one_move(
    wire_bytes: &[u8],
    parsed: &Parsed,
    facts: &MoveFacts,
    local_key: &[u8; 32],
    now_ms: u64,
) -> (applied: (MoveResult, MoveVerdict))
    ensures
        applied.0.status == applied.1.status,
        match wire::signed_object_in(wire_bytes@) {
            None => applied.0.canonical_hash@ == crypto::sha256_digest(wire_bytes@) && applied.1
                == verdict_of(
                MoveStatus::Rejected(MoveRejectReason::SchemaInvalid),
                None,
                local_key@,
            ),
            Some((payload, signature)) => {
                &&& applied.0.canonical_hash@ == crypto::sha256_digest(payload)
                &&& applied.1 == verdict_of(
                    move_status(
                        *parsed,
                        crypto::sha256_digest(payload),
                        move_signature_ok(payload, signature, *parsed),
                        *facts,
                        now_ms,
                    ),
                    parsed_move(*parsed),
                    local_key@,
                )
            },
        },
{
    let object: Option<SignedObject> = decode_signed_object(wire_bytes);
    match &object {
        None => {
            let status = MoveStatus::Rejected(MoveRejectReason::SchemaInvalid);
            (
                PushResult { canonical_hash: crypto::sha256(wire_bytes), status },
                MoveVerdict {
                    status,
                    persist: false,
                    rehome: Rehome::Keep,
                    dispose_authority: false,
                    forward: false,
                },
            )
        },
        Some(o) => {
            let hash: [u8; 32] = crypto::sha256(o.payload.as_slice());
            let signature_ok: bool = match parsed {
                Ok(SignedPayload::Move(m)) => crypto::signature_holds(
                    &m.key,
                    o.payload.as_slice(),
                    o.signature.as_slice(),
                ),
                _ => false,
            };
            let verdict: MoveVerdict = judge_move(
                parsed,
                &hash,
                signature_ok,
                facts,
                local_key,
                now_ms,
            );
            (PushResult { canonical_hash: hash, status: verdict.status }, verdict)
        },
    }
}

/// A move is stored exactly when it ends as applied or superseded; only then
/// can it change a home or end local authority, and it is never refused and
/// passed on.
pub proof fn law_only_stored_moves_act(status: MoveStatus, mv: Option<Move>, local: Seq<u8>)
    ensures
        ({
            let v = verdict_of(status, mv, local);
            &&& v.persist <==> v.status is Applied || v.status is Superseded
            &&& v.rehome != Rehome::Keep <==> v.status is Applied
            &&& v.dispose_authority ==> v.persist
            &&& v.status is Rejected ==> !v.forward
            &&& v.status is Deferred ==> !v.forward && !v.persist
        }),
{
}

/// A user who moved away from here, to another instance, loses every local
/// authority, whether or not the move is the one that stands.
pub proof fn law_leaving_ends_local_authority(status: MoveStatus, mv: Move, local: Seq<u8>)
    requires
        status is Applied || status is Superseded,
        mv.from_instance_key@ == local,
        mv.to_instance_key@ != local,
    ensures
        verdict_of(status, Some(mv), local).dispose_authority,
{
}

/// The row that records a user's home.
#[derive(Debug)]
pub struct HomeRow {
    pub home_key: [u8; 32],
    pub home_domain: String,
    pub move_hash: [u8; 32],
    pub created_at: i64,
}

/// The home that an applied move records: the instance that it names, word
/// for word, with the move's own hash and timestamp.
pub fn home_row(m: &Move, hash: &[u8; 32]) -> (row: HomeRow)
    ensures
        row.home_key == m.to_instance_key,
        row.home_domain@ == m.to_instance@,
        row.move_hash == *hash,
        row.created_at == m.created_at as i64,
{
    HomeRow {
        home_key: m.to_instance_key,
        home_domain: m.to_instance.clone(),
        move_hash: *hash,
        created_at: m.created_at as i64,
    }
}

/// What the recorded home of a user says about the claim behind it is what
/// the move said, for every timestamp that a row can hold.
pub proof fn law_home_row_keeps_the_claim(created_at: u64, hash: Vec<u8>)
    requires
        created_at <= i64::MAX,
    ensures
        (CurrentClaim { created_at: created_at as i64, hash })@ == (latest_wins::Claim {
            created_at,
            hash: hash@,
        }),
{
}

/// The routing key of a stored move, read from what its bytes parsed as.
pub fn move_routing_key_from_bytes(parsed: &Parsed) -> (key: Option<Vec<u8>>)
    ensures
        match parsed_move(*parsed) {
            Some(m) => key matches Some(k) && k@ == m.key@,
            None => key is None,
        },
{
    match parsed {
        Ok(SignedPayload::Move(m)) => Some(vstd::slice::slice_to_vec(m.key.as_slice())),
        _ => None,
    }
}

/// A local account, as far as giving up authority over it goes.
#[derive(Debug)]
pub struct LocalAccount {
    pub user_id: String,
    pub signup_method: String,
}

/// What to delete and change when a user has moved away.
#[derive(Clone, Copy, Debug, PartialEq, Eq)]
pub struct Disposal {
    pub delete_signing_keys: bool,
    pub delete_sessions: bool,
    pub delete_credentials: bool,
    pub become_federated: bool,
}

/// What giving up authority over an account takes: everything where the
/// account is a local one, and nothing where there is none or it is a mere
/// projection of a remote user.
pub fn dispose_local_user_authority(account: &Option<LocalAccount>) -> (disposal: Disposal)
    ensures
        ({
            let local = *account matches Some(a) && a.signup_method@ != "federated"@;
            &&& disposal.delete_signing_keys == local
            &&& disposal.delete_sessions == local
            &&& disposal.delete_credentials == local
            &&& disposal.become_federated == local
        }),
{
    let local: bool = match account {
        Some(a) => !crate::text::same_text(a.signup_method.as_str(), "federated"),
        None => false,
    };
    Disposal {
        delete_signing_keys: local,
        delete_sessions: local,
        delete_credentials: local,
        become_federated: local,
    }
}

/// A move is timely where it was made at most five minutes before or after it
/// came in.
pub open spec fn is_timely(created_at: u64, now_ms: u64) -> bool {
    now_ms - 300_000 <= created_at <= now_ms + 300_000
}

/// A move that is new here is refused where its signature does not hold or its
/// time lies more than five minutes off, before or after, and waits for the
/// move that it follows. Every other one is stored and passed on, and becomes
/// the user's current move exactly where it is later than the one so far, or
/// as late with a smaller hash.
pub proof fn law_timely_moves_are_taken_in(
    m: Move,
    hash: &[u8; 32],
    signature_ok: bool,
    facts: &MoveFacts,
    local_key: &[u8; 32],
    now_ms: u64,
    verdict: MoveVerdict,
)
    requires
        call_ensures(
            judge_move,
            (&Ok(SignedPayload::Move(m)), hash, signature_ok, facts, local_key, now_ms),
            verdict,
        ),
        facts.stored_payload_gone is None,
    ensures
        !signature_ok ==> verdict.status == MoveStatus::Rejected(
            MoveRejectReason::InvalidSignature,
        ),
        signature_ok && !is_timely(m.created_at, now_ms) ==> verdict.status
            == MoveStatus::Rejected(MoveRejectReason::SkewExceeded),
        signature_ok && is_timely(m.created_at, now_ms) && m.prior_move_hash is Some
            && !facts.prior_stored ==> verdict.status is Deferred,
        signature_ok && is_timely(m.created_at, now_ms) && (m.prior_move_hash is None
            || facts.prior_stored) ==> {
            &&& verdict.persist
            &&& verdict.forward
            &&& facts.current is None ==> verdict.status is Applied
            &&& facts.current matches Some(c) ==> {
                &&& c.created_at < m.created_at && m.created_at > 0 ==> verdict.status is Applied
                &&& c.created_at > m.created_at ==> verdict.status is Superseded
                &&& c.created_at == m.created_at ==> if bytes::lex_less(hash@, c.hash@) {
                    verdict.status is Applied
                } else {
                    verdict.status is Superseded
                }
            }
        },
{
}

/// A move that is the current one brings its user here where it names this
/// instance and away where it names another. One that is stored but not the
/// current one leaves the home as it is. Either ends local authority exactly
/// where it leads from here to another instance. One that is not stored
/// changes nothing.
pub proof fn law_the_current_move_decides_the_home(
    m: Move,
    hash: &[u8; 32],
    signature_ok: bool,
    facts: &MoveFacts,
    local_key: &[u8; 32],
    now_ms: u64,
    verdict: MoveVerdict,
)
    requires
        call_ensures(
            judge_move,
            (&Ok(SignedPayload::Move(m)), hash, signature_ok, facts, local_key, now_ms),
            verdict,
        ),
    ensures
        verdict.persist <==> verdict.status is Applied || verdict.status is Superseded,
        verdict.status is Applied && m.to_instance_key@ == local_key@ ==> verdict.rehome
            == Rehome::Here,
        verdict.status is Applied && m.to_instance_key@ != local_key@ ==> verdict.rehome
            == Rehome::Away,
        !(verdict.status is Applied) ==> verdict.rehome == Rehome::Keep,
        verdict.persist ==> verdict.dispose_authority == (m.from_instance_key@ == local_key@
            && m.to_instance_key@ != local_key@),
        !verdict.persist ==> !verdict.dispose_authority,
        verdict.forward <==> verdict.persist || verdict.status is Duplicate,
{
}

/// An object that is stored already is a duplicate, whatever it says, and one
/// whose payload was erased is refused. Neither is stored again.
pub proof fn law_stored_moves_are_not_stored_again(
    parsed: &Parsed,
    hash: &[u8; 32],
    signature_ok: bool,
    facts: &MoveFacts,
    local_key: &[u8; 32],
    now_ms: u64,
    verdict: MoveVerdict,
)
    requires
        call_ensures(
            judge_move,
            (parsed, hash, signature_ok, facts, local_key, now_ms),
            verdict,
        ),
        facts.stored_payload_gone is Some,
    ensures
        facts.stored_payload_gone == Some(false) ==> verdict.status is Duplicate
            && verdict.forward == (*parsed matches Ok(SignedPayload::Move(_))),
        facts.stored_payload_gone == Some(true) ==> verdict.status == MoveStatus::Rejected(
            MoveRejectReason::SchemaInvalid,
        ) && !verdict.forward,
        !verdict.persist,
        verdict.rehome == Rehome::Keep,
        !verdict.dispose_authority,
{
}

/// An object that is no move is refused with what is wrong with it, and
/// changes nothing.
pub proof fn law_other_classes_are_refused(
    parsed: &Parsed,
    hash: &[u8; 32],
    signature_ok: bool,
    facts: &MoveFacts,
    local_key: &[u8; 32],
    now_ms: u64,
    verdict: MoveVerdict,
)
    requires
        call_ensures(
            judge_move,
            (parsed, hash, signature_ok, facts, local_key, now_ms),
            verdict,
        ),
        facts.stored_payload_gone is None,
        !(*parsed matches Ok(SignedPayload::Move(_))),
    ensures
        verdict.status is Rejected,
        *parsed == Parsed::Err(ParseError::Invalid) ==> verdict.status == MoveStatus::Rejected(
            MoveRejectReason::SchemaInvalid,
        ),
        *parsed == Parsed::Err(ParseError::UnknownClass) ==> verdict.status
            == MoveStatus::Rejected(MoveRejectReason::UnknownClass),
        *parsed matches Ok(p) ==> (verdict.status == MoveStatus::Rejected(
            MoveRejectReason::UnknownClass,
        ) <==> p is FedEnvelope || p is RegistrationChallenge || p is PriorHomeChallenge
            || p is PriorHomeResponse),
        *parsed matches Ok(p) ==> verdict.status == MoveStatus::Rejected(
            MoveRejectReason::UnknownClass,
        ) || verdict.status == MoveStatus::Rejected(MoveRejectReason::WrongClass),
        !verdict.persist && !verdict.forward && !verdict.dispose_authority,
        verdict.rehome == Rehome::Keep,
{
}

/// A pushed move is stored only where the user whom it is about signed its
/// payload, and its result names the payload's hash. What has not the frame of
/// a signed object is refused, under the hash of what came.
pub proof fn law_pushed_moves_are_signed_by_their_user(
    wire_bytes: &[u8],
    parsed: &Parsed,
    facts: &MoveFacts,
    local_key: &[u8; 32],
    now_ms: u64,
    applied: (MoveResult, MoveVerdict),
)
    requires
        call_ensures(apply_one_move, (wire_bytes, parsed, facts, local_key, now_ms), applied),
    ensures
        applied.0.status == applied.1.status,
        wire::signed_object_in(wire_bytes@) is None ==> applied.0.canonical_hash@
            == crypto::sha256_digest(wire_bytes@) && applied.0.status == MoveStatus::Rejected(
            MoveRejectReason::SchemaInvalid,
        ) && !applied.1.persist && !applied.1.forward,
        wire::signed_object_in(wire_bytes@) matches Some((payload, signature)) ==> {
            &&& applied.0.canonical_hash@ == crypto::sha256_digest(payload)
            &&& applied.1.persist ==> (*parsed matches Ok(SignedPayload::Move(m))
                && crypto::ed25519_verifies(m.key@, payload, signature))
            &&& facts.stored_payload_gone is None ==> (*parsed matches Ok(SignedPayload::Move(m))
                ==> (applied.0.status == MoveStatus::Rejected(MoveRejectReason::InvalidSignature)
                <==> !crypto::ed25519_verifies(m.key@, payload, signature)))
            &&& facts.stored_payload_gone is None && facts.current is None ==> (
            *parsed matches Ok(SignedPayload::Move(m)) ==> crypto::ed25519_verifies(
                m.key@,
                payload,
                signature,
            ) && is_timely(m.created_at, now_ms) && m.prior_move_hash is None
                ==> applied.0.status is Applied && applied.1.forward)
        },
{
}

/// A push is taken with all of its moves where it has between one and
/// sixty-four of them, and is refused as a whole otherwise.
pub proof fn law_moves_come_in_batches(body: &[u8], moves: Result<Vec<Vec<u8>>, MovesPushError>)
    requires
        call_ensures(open_moves_push, (body,), moves),
    ensures
        moves is Ok <==> (push::list_in(body@, "moves"@) matches Some(list) && 1 <= list.len()
            <= 64),
        moves matches Ok(m) ==> push::list_in(body@, "moves"@) == Some(push::byte_strings(m@)),
        moves matches Err(e) ==> {
            &&& e is Malformed <==> push::list_in(body@, "moves"@) is None
            &&& e is EmptyBatch <==> (push::list_in(body@, "moves"@) matches Some(list)
                && list.len() == 0)
            &&& e is BatchTooLarge <==> (push::list_in(body@, "moves"@) matches Some(list)
                && list.len() > 64)
        },
{
}

/// What an applied move records is where the move leads, under its own hash.
pub proof fn law_the_recorded_home_is_where_the_move_leads(
    m: &Move,
    hash: &[u8; 32],
    row: HomeRow,
)
    requires
        call_ensures(home_row, (m, hash), row),
    ensures
        row.home_key@ == m.to_instance_key@,
        row.home_domain@ == m.to_instance@,
        row.move_hash@ == hash@,
        m.created_at <= i64::MAX ==> row.created_at == m.created_at,
{
}

/// Only a local account loses anything when its user has left, and it loses
/// everything.
pub proof fn law_only_local_accounts_are_disposed_of(
    account: &Option<LocalAccount>,
    disposal: Disposal,
)
    requires
        call_ensures(dispose_local_user_authority, (account,), disposal),
    ensures
        *account matches Some(a) && a.signup_method@ != "federated"@ ==> disposal == (Disposal {
            delete_signing_keys: true,
            delete_sessions: true,
            delete_credentials: true,
            become_federated: true,
        }),
        account is None || account->Some_0.signup_method@ == "federated"@ ==> disposal == (
        Disposal {
            delete_signing_keys: false,
            delete_sessions: false,
            delete_credentials: false,
            become_federated: false,
        }),
{
}

/// What became of a move is told in words: one for each outcome, and one for
/// each reason of a refusal.
pub proof fn law_outcomes_have_their_words(outcome: MoveStatus)
    ensures
        outcome is Applied ==> outcome.status_text() == "applied"@,
        outcome is Duplicate ==> outcome.status_text() == "duplicate"@,
        outcome is Deferred ==> outcome.status_text() == "deferred"@,
        outcome is Superseded ==> outcome.status_text() == "superseded"@,
        outcome is Rejected ==> outcome.status_text() == "rejected"@,
        outcome.reason_text() is Some <==> outcome is Rejected,
        outcome matches MoveStatus::Rejected(r) ==> outcome.reason_text()
            == Some(
            match r {
                MoveRejectReason::InvalidSignature => "invalid_signature"@,
                MoveRejectReason::SchemaInvalid => "schema_invalid"@,
                MoveRejectReason::SkewExceeded => "skew_exceeded"@,
                MoveRejectReason::UnknownClass => "unknown_class"@,
                MoveRejectReason::WrongClass => "wrong_class"@,
            },
        ),
{
}

/// The moves of a push are taken as a whole where the sender's budget covers
/// them, and refused as a whole where it does not.
pub proof fn law_the_budget_covers_all_or_nothing(
    moves: Vec<Vec<u8>>,
    within_budget: bool,
    admitted: Result<Vec<Vec<u8>>, MovesPushError>,
)
    requires
        call_ensures(admit_moves, (moves, within_budget), admitted),
    ensures
        within_budget ==> admitted == Ok::<Vec<Vec<u8>>, MovesPushError>(moves),
        !within_budget ==> admitted == Err::<Vec<Vec<u8>>, MovesPushError>(
            MovesPushError::RateLimited,
        ),
{
}

/// A move is routed by the key of the user who moves, and nothing else is
/// routed as a move.
pub proof fn law_moves_are_routed_by_their_user(parsed: &Parsed, key: Option<Vec<u8>>)
    requires
        call_ensures(move_routing_key_from_bytes, (parsed,), key),
    ensures
        key is Some <==> (*parsed matches Ok(p) && p is Move),
        *parsed matches Ok(SignedPayload::Move(m)) ==> (key matches Some(k) && k@ == m.key@),
{
}

/// The errors of a push have their words.
pub proof fn law_push_errors_have_their_words(error: MovesPushError, word: &'static str)
    requires
        call_ensures(MovesPushError::as_str, (&error,), word),
    ensures
        word@ == match error {
            MovesPushError::Malformed => "malformed"@,
            MovesPushError::EmptyBatch => "empty_batch"@,
            MovesPushError::BatchTooLarge => "batch_too_large"@,
            MovesPushError::RateLimited => "rate_limited"@,
        },
{
}

} // verus!
