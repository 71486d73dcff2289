//! Proving to a former home that one holds a key: the challenge that it
//! issues, what an answer has to meet, and what it tells in return.

use vstd::prelude::*;

use crate::bytes::{key_from_slice, same_key};
use crate::cbor;
use crate::cbor::{Cbor, CborView, DictBuilder};
use crate::clock::now_ms;
use crate::crypto;
use crate::crypto::{key_is_valid, sha256, signature_holds};
use crate::federation::fields;
use crate::federation::prior_home_challenge_rate_limit::{CallerAddr, PriorHomeChallengeRateLimiter};
use crate::federation::prior_home_rate_limit::PriorHomeRateLimiter;
use crate::federation::signed::{
    Parsed, PriorHomeChallenge, PriorHomeResponse, SignedObject, SignedPayload,
};
use crate::federation::window;
use crate::federation::wire;
use crate::federation::wire::{decode_signed_object, read_sole, read_two, write_sole};
use crate::random::random_32;
use crate::timestamp;
use crate::timestamp::iso8601_to_unix_ms;

verus! {

/// How long a challenge may be answered.
pub const PRIOR_HOME_CHALLENGE_TTL_MS: u64 = 60_000;

/// How long the nonce of a challenge is.
pub const PRIOR_HOME_NONCE_BYTES: usize = 32;

/// How far the timestamp of an answer may lie from the clock.
pub const MAX_FEDERATION_CLOCK_SKEW_MS: u64 = 60_000;

/// A request for a challenge.
#[derive(Clone, Copy, Debug)]
pub struct ChallengeReq {
    pub key: [u8; 32],
}

/// The key that a request for a challenge names.
pub open spec fn challenge_key_in(body: Seq<u8>) -> Option<Seq<u8>> {
    match wire::sole_in(body, "key"@) {
        Some(k) => if k.len() == 32 {
            Some(k)
        } else {
            None
        },
        None => None,
    }
}

impl ChallengeReq {
    /// Reads a request for a challenge.
    pub fn decode(bytes: &[u8]) -> (request: Option<ChallengeReq>)
        ensures
            match request {
                Some(r) => challenge_key_in(bytes@) == Some(r.key@),
                None => challenge_key_in(bytes@) is None,
            },
    {
        match read_sole(bytes, "key") {
            Some(k) => match key_from_slice(k.as_slice()) {
                Some(key) => Some(ChallengeReq { key }),
                None => None,
            },
            None => None,
        }
    }
}

/// An answered challenge: the frames of both.
#[derive(Debug)]
pub struct ProbeReq {
    pub challenge: Vec<u8>,
    pub response: Vec<u8>,
}

impl ProbeReq {
    /// Reads an answered challenge.
    pub fn decode(bytes: &[u8]) -> (request: Option<ProbeReq>)
        ensures
            match request {
                Some(r) => wire::two_in(bytes@, "challenge"@, "response"@) == Some(
                    (r.challenge@, r.response@),
                ),
                None => wire::two_in(bytes@, "challenge"@, "response"@) is None,
            },
    {
        match read_two(bytes, "challenge", "response") {
            Some((challenge, response)) => Some(ProbeReq { challenge, response }),
            None => None,
        }
    }
}

/// Why a request was refused.
#[derive(Clone, Copy, Debug, PartialEq, Eq, Structural)]
pub enum PriorHomeRefusal {
    Malformed,
    InvalidKey,
    Internal,
    WrongResponder,
    InvalidChallenge,
    InvalidResponse,
    SubjectMismatch,
    ExpiredChallenge,
    SkewExceeded,
    SubjectDeactivated,
    TooManyRequests,
}

/// The HTTP status that answers a refusal.
pub open spec fn refusal_status(r: PriorHomeRefusal) -> u16 {
    match r {
        PriorHomeRefusal::Internal => 500,
        PriorHomeRefusal::SubjectDeactivated => 403,
        PriorHomeRefusal::TooManyRequests => 429,
        _ => 400,
    }
}

/// The code that tells a refusal, where there is one.
pub open spec fn refusal_code(r: PriorHomeRefusal) -> Option<Seq<char>> {
    match r {
        PriorHomeRefusal::Malformed => Some("malformed"@),
        PriorHomeRefusal::InvalidKey => Some("invalid_key"@),
        PriorHomeRefusal::WrongResponder => Some("wrong_responder"@),
        PriorHomeRefusal::InvalidChallenge => Some("invalid_challenge"@),
        PriorHomeRefusal::InvalidResponse => Some("invalid_response"@),
        PriorHomeRefusal::SubjectMismatch => Some("subject_mismatch"@),
        PriorHomeRefusal::ExpiredChallenge => Some("expired_challenge"@),
        PriorHomeRefusal::SkewExceeded => Some("skew_exceeded"@),
        PriorHomeRefusal::SubjectDeactivated => Some("subject_deactivated"@),
        PriorHomeRefusal::Internal => None,
        PriorHomeRefusal::TooManyRequests => None,
    }
}

impl PriorHomeRefusal {
    /// The HTTP status that answers it.
    pub fn status(&self) -> (status: u16)
        ensures
            status == refusal_status(*self),
    {
        match self {
            PriorHomeRefusal::Internal => 500,
            PriorHomeRefusal::SubjectDeactivated => 403,
            PriorHomeRefusal::TooManyRequests => 429,
            _ => 400,
        }
    }

    /// The code that tells it, where there is one.
    pub fn code(&self) -> (code: Option<&'static str>)
        ensures
            match code {
                Some(c) => refusal_code(*self) == Some(c@),
                None => refusal_code(*self) is None,
            },
    {
        match self {
            PriorHomeRefusal::Malformed => Some("malformed"),
            PriorHomeRefusal::InvalidKey => Some("invalid_key"),
            PriorHomeRefusal::WrongResponder => Some("wrong_responder"),
            PriorHomeRefusal::InvalidChallenge => Some("invalid_challenge"),
            PriorHomeRefusal::InvalidResponse => Some("invalid_response"),
            PriorHomeRefusal::SubjectMismatch => Some("subject_mismatch"),
            PriorHomeRefusal::ExpiredChallenge => Some("expired_challenge"),
            PriorHomeRefusal::SkewExceeded => Some("skew_exceeded"),
            PriorHomeRefusal::SubjectDeactivated => Some("subject_deactivated"),
            PriorHomeRefusal::Internal => None,
            PriorHomeRefusal::TooManyRequests => None,
        }
    }
}

/// When a challenge of `now_ms` runs out.
pub open spec fn expiry_of(now_ms: u64) -> int {
    if now_ms + PRIOR_HOME_CHALLENGE_TTL_MS <= u64::MAX {
        now_ms + PRIOR_HOME_CHALLENGE_TTL_MS
    } else {
        u64::MAX as int
    }
}

/// Whether `challenge` is the answer to a request for one: a challenge that
/// binds the key to this instance, to a nonce and to the time, or the refusal.
pub open spec fn is_challenge_for(
    challenge: Result<PriorHomeChallenge, PriorHomeRefusal>,
    body: Seq<u8>,
    own_key: Seq<u8>,
    nonce: Seq<u8>,
    now_ms: u64,
) -> bool {
    match challenge_key_in(body) {
        None => challenge == Err::<PriorHomeChallenge, PriorHomeRefusal>(
            PriorHomeRefusal::Malformed,
        ),
        Some(key) => if !crypto::ed25519_key_valid(key) {
            challenge == Err::<PriorHomeChallenge, PriorHomeRefusal>(PriorHomeRefusal::InvalidKey)
        } else {
            challenge matches Ok(c) && c.subject_key@ == key && c.responder_instance_key@
                == own_key && c.nonce@ == nonce && c.created_at == now_ms && c.expires_at
                == expiry_of(now_ms)
        },
    }
}

/// Decides whether a request for a challenge is answered at `now_secs`, and
/// counts it: against the budget of its caller in any case, and against that
/// of its key where the caller is within its own and the key is one.
pub fn admit_challenge(
    body: &[u8],
    ip: CallerAddr,
    limiter: &mut PriorHomeChallengeRateLimiter,
    now_secs: u64,
) -> (verdict: Result<(), PriorHomeRefusal>)
    requires
        old(limiter).wf(),
    ensures
        final(limiter).wf(),
        final(limiter).same_caps(old(limiter)),
        final(limiter).ip_windows() == window::after_request(
            old(limiter).ip_windows(),
            ip@,
            now_secs,
            PriorHomeChallengeRateLimiter::WINDOW_SECS,
            old(limiter).ip_budget(),
        ),
        ({
            let caller_admitted = window::admits(
                old(limiter).ip_windows(),
                ip@,
                now_secs,
                PriorHomeChallengeRateLimiter::WINDOW_SECS,
                old(limiter).ip_budget(),
            );
            match challenge_key_in(body@) {
                Some(key) if caller_admitted && crypto::ed25519_key_valid(key) => {
                    &&& final(limiter).key_windows() == window::after_request(
                        old(limiter).key_windows(),
                        key,
                        now_secs,
                        PriorHomeChallengeRateLimiter::WINDOW_SECS,
                        old(limiter).key_budget(),
                    )
                    &&& verdict == if window::admits(
                        old(limiter).key_windows(),
                        key,
                        now_secs,
                        PriorHomeChallengeRateLimiter::WINDOW_SECS,
                        old(limiter).key_budget(),
                    ) {
                        Ok::<(), PriorHomeRefusal>(())
                    } else {
                        Err(PriorHomeRefusal::TooManyRequests)
                    }
                },
                found => {
                    &&& final(limiter).key_windows() == old(limiter).key_windows()
                    &&& verdict == Err::<(), PriorHomeRefusal>(
                        if !caller_admitted {
                            PriorHomeRefusal::TooManyRequests
                        } else if found is None {
                            PriorHomeRefusal::Malformed
                        } else {
                            PriorHomeRefusal::InvalidKey
                        },
                    )
                },
            }
        }),
{
    if !limiter.try_admit_ip_at(ip, now_secs) {
        return Err(PriorHomeRefusal::TooManyRequests);
    }
    let request: ChallengeReq = match ChallengeReq::decode(body) {
        Some(r) => r,
        None => return Err(PriorHomeRefusal::Malformed),
    };
    if !key_is_valid(&request.key) {
        return Err(PriorHomeRefusal::InvalidKey);
    }
    if limiter.try_admit_key_at(request.key, now_secs) {
        Ok(())
    } else {
        Err(PriorHomeRefusal::TooManyRequests)
    }
}

/// Answers a request for a challenge, with a fresh nonce and at this time. It
/// fails where the system has no randomness to give.
pub fn handle_challenge(body: &[u8], own_key: &[u8; 32]) -> (challenge: Result<
    PriorHomeChallenge,
    PriorHomeRefusal,
>)
    ensures
        challenge == Err::<PriorHomeChallenge, PriorHomeRefusal>(PriorHomeRefusal::Internal)
            || exists|nonce: Seq<u8>, now_ms: u64| #[trigger]
            is_challenge_for(challenge, body@, own_key@, nonce, now_ms),
        challenge_key_in(body@) is None ==> challenge == Err::<
            PriorHomeChallenge,
            PriorHomeRefusal,
        >(PriorHomeRefusal::Malformed),
        challenge_key_in(body@) matches Some(key) ==> !crypto::ed25519_key_valid(key) ==> challenge
            == Err::<PriorHomeChallenge, PriorHomeRefusal>(PriorHomeRefusal::InvalidKey),
{
    let now: u64 = now_ms();
    let blank: [u8; 32] = [0u8; 32];
    let nonce: Option<[u8; 32]> = random_32();
    let drawn: [u8; 32] = match nonce {
        Some(n) => n,
        None => blank,
    };
    let challenge: Result<PriorHomeChallenge, PriorHomeRefusal> = handle_challenge_at(
        body,
        own_key,
        drawn,
        now,
    );
    if challenge.is_ok() && nonce.is_none() {
        return Err(PriorHomeRefusal::Internal);
    }
    challenge
}

/// Answers a request for a challenge with a nonce and at a time.
pub fn handle_challenge_at(body: &[u8], own_key: &[u8; 32], nonce: [u8; 32], now_ms: u64) -> (
challenge: Result<PriorHomeChallenge, PriorHomeRefusal>)
    ensures
        is_challenge_for(challenge, body@, own_key@, nonce@, now_ms),
{
    let request: ChallengeReq = match ChallengeReq::decode(body) {
        Some(r) => r,
        None => return Err(PriorHomeRefusal::Malformed),
    };
    let valid: bool = key_is_valid(&request.key);
    issue_challenge(&request.key, valid, own_key, nonce, now_ms)
}

/// Issues a challenge for a key, where it is one.
pub fn issue_challenge(
    key: &[u8; 32],
    valid: bool,
    own_key: &[u8; 32],
    nonce: [u8; 32],
    now_ms: u64,
) -> (challenge: Result<PriorHomeChallenge, PriorHomeRefusal>)
    ensures
        match challenge {
            Ok(c) => valid && c.subject_key@ == key@ && c.responder_instance_key@ == own_key@
                && c.nonce@ == nonce@ && c.created_at == now_ms && c.expires_at == expiry_of(
                now_ms,
            ),
            Err(e) => !valid && e == PriorHomeRefusal::InvalidKey,
        },
{
    if !valid {
        return Err(PriorHomeRefusal::InvalidKey);
    }
    Ok(
        PriorHomeChallenge {
            responder_instance_key: *own_key,
            subject_key: *key,
            nonce,
            created_at: now_ms,
            expires_at: now_ms.saturating_add(PRIOR_HOME_CHALLENGE_TTL_MS),
        },
    )
}

/// The body that carries a challenge.
pub fn encode_challenge_body(framed: &[u8]) -> (body: Vec<u8>)
    ensures
        body@ == cbor::cbor_encoding(wire::sole_body("challenge"@, framed@)),
        cbor::cbor_decoding(body@) == Some(wire::sole_body("challenge"@, framed@)),
        wire::sole_in(body@, "challenge"@) == Some(framed@),
{
    write_sole("challenge", framed)
}

/// The two signed objects of an answered challenge.
#[derive(Debug)]
pub struct ProbePair {
    pub challenge: SignedObject,
    pub response: SignedObject,
}

/// The payloads and signatures of an answered challenge: of the challenge and
/// of the answer.
pub open spec fn pair_in(body: Seq<u8>) -> Option<
    ((Seq<u8>, Seq<u8>), (Seq<u8>, Seq<u8>)),
> {
    match wire::two_in(body, "challenge"@, "response"@) {
        Some((c, r)) => match (wire::signed_object_in(c), wire::signed_object_in(r)) {
            (Some(x), Some(y)) => Some((x, y)),
            _ => None,
        },
        None => None,
    }
}

impl ProbePair {
    /// The payloads and signatures.
    pub open spec fn view(&self) -> ((Seq<u8>, Seq<u8>), (Seq<u8>, Seq<u8>)) {
        (
            (self.challenge.payload@, self.challenge.signature@),
            (self.response.payload@, self.response.signature@),
        )
    }
}

/// Takes the signed objects of an answered challenge out of a body.
pub fn open_probe(body: &[u8]) -> (pair: Result<ProbePair, PriorHomeRefusal>)
    ensures
        match pair {
            Ok(p) => pair_in(body@) == Some(p@),
            Err(e) => pair_in(body@) is None && e == PriorHomeRefusal::Malformed,
        },
{
    let request: ProbeReq = match ProbeReq::decode(body) {
        Some(r) => r,
        None => return Err(PriorHomeRefusal::Malformed),
    };
    let challenge: SignedObject = match decode_signed_object(request.challenge.as_slice()) {
        Some(o) => o,
        None => return Err(PriorHomeRefusal::Malformed),
    };
    let response: SignedObject = match decode_signed_object(request.response.as_slice()) {
        Some(o) => o,
        None => return Err(PriorHomeRefusal::Malformed),
    };
    Ok(ProbePair { challenge, response })
}

/// What the signatures of an answered challenge prove.
#[derive(Clone, Copy, Debug)]
pub struct ProbeProof {
    /// Whether this instance's own key is one.
    pub own_key_valid: bool,
    /// Whether the challenge is signed under it.
    pub challenge_signed: bool,
    /// Whether the subject of the answer is a key, and the answer is signed
    /// under it.
    pub response_signed: bool,
    /// The digest of the challenge.
    pub challenge_hash: [u8; 32],
}

/// The difference of two points in time.
pub open spec fn distance(a: u64, b: u64) -> int {
    if a >= b {
        a - b
    } else {
        b - a
    }
}

/// Why an answered challenge is refused before it counts against a budget,
/// if it is.
pub open spec fn probe_refusal(
    challenge: Parsed,
    response: Parsed,
    own_key: Seq<u8>,
    now_ms: u64,
    found: ProbeProof,
    deactivated: bool,
) -> Option<PriorHomeRefusal> {
    if !found.own_key_valid {
        Some(PriorHomeRefusal::Internal)
    } else if !found.challenge_signed {
        Some(PriorHomeRefusal::WrongResponder)
    } else {
        match challenge {
            Ok(SignedPayload::PriorHomeChallenge(c)) => if c.responder_instance_key@ != own_key {
                Some(PriorHomeRefusal::WrongResponder)
            } else {
                match response {
                    Ok(SignedPayload::PriorHomeResponse(r)) => if !found.response_signed {
                        Some(PriorHomeRefusal::InvalidResponse)
                    } else if c.subject_key@ != r.subject_key@ || r.challenge_hash@
                        != found.challenge_hash@ {
                        Some(PriorHomeRefusal::SubjectMismatch)
                    } else if now_ms > c.expires_at {
                        Some(PriorHomeRefusal::ExpiredChallenge)
                    } else if distance(now_ms, r.created_at) > MAX_FEDERATION_CLOCK_SKEW_MS {
                        Some(PriorHomeRefusal::SkewExceeded)
                    } else if deactivated {
                        Some(PriorHomeRefusal::SubjectDeactivated)
                    } else {
                        None
                    },
                    _ => Some(PriorHomeRefusal::InvalidResponse),
                }
            },
            _ => Some(PriorHomeRefusal::InvalidChallenge),
        }
    }
}

/// Decides on an answered challenge, by what its signatures prove: the key
/// that is proved.
pub fn judge_probe(
    challenge: &Parsed,
    response: &Parsed,
    own_key: &[u8; 32],
    now_ms: u64,
    found: &ProbeProof,
    deactivated: bool,
) -> (subject: Result<[u8; 32], PriorHomeRefusal>)
    ensures
        match subject {
            Ok(k) => probe_refusal(*challenge, *response, own_key@, now_ms, *found, deactivated)
                is None && k == response->Ok_0->PriorHomeResponse_0.subject_key,
            Err(e) => probe_refusal(*challenge, *response, own_key@, now_ms, *found, deactivated)
                == Some(e),
        },
{
    if !found.own_key_valid {
        return Err(PriorHomeRefusal::Internal);
    }
    if !found.challenge_signed {
        return Err(PriorHomeRefusal::WrongResponder);
    }
    let c: &PriorHomeChallenge = match challenge {
        Ok(SignedPayload::PriorHomeChallenge(c)) => c,
        _ => return Err(PriorHomeRefusal::InvalidChallenge),
    };
    if !same_key(&c.responder_instance_key, own_key) {
        return Err(PriorHomeRefusal::WrongResponder);
    }
    let r: &PriorHomeResponse = match response {
        Ok(SignedPayload::PriorHomeResponse(r)) => r,
        _ => return Err(PriorHomeRefusal::InvalidResponse),
    };
    if !found.response_signed {
        return Err(PriorHomeRefusal::InvalidResponse);
    }
    if !same_key(&c.subject_key, &r.subject_key) {
        return Err(PriorHomeRefusal::SubjectMismatch);
    }
    if !same_key(&r.challenge_hash, &found.challenge_hash) {
        return Err(PriorHomeRefusal::SubjectMismatch);
    }
    if now_ms > c.expires_at {
        return Err(PriorHomeRefusal::ExpiredChallenge);
    }
    let apart: u64 = if now_ms >= r.created_at {
        now_ms - r.created_at
    } else {
        r.created_at - now_ms
    };
    if apart > MAX_FEDERATION_CLOCK_SKEW_MS {
        return Err(PriorHomeRefusal::SkewExceeded);
    }
    if deactivated {
        return Err(PriorHomeRefusal::SubjectDeactivated);
    }
    Ok(r.subject_key)
}

/// Whether `found` is what the signatures of an answered challenge prove.
pub open spec fn is_proof_of(
    found: ProbeProof,
    pair: ((Seq<u8>, Seq<u8>), (Seq<u8>, Seq<u8>)),
    response: Parsed,
    own_key: Seq<u8>,
) -> bool {
    &&& found.own_key_valid == crypto::ed25519_key_valid(own_key)
    &&& found.challenge_signed == crypto::ed25519_verifies(own_key, pair.0.0, pair.0.1)
    &&& found.response_signed == match response {
        Ok(SignedPayload::PriorHomeResponse(r)) => crypto::ed25519_key_valid(r.subject_key@)
            && crypto::ed25519_verifies(r.subject_key@, pair.1.0, pair.1.1),
        _ => false,
    }
    &&& found.challenge_hash@ == crypto::sha256_digest(pair.0.0)
}

fn prove_probe(pair: &ProbePair, response: &Parsed, own_key: &[u8; 32]) -> (found: ProbeProof)
    ensures
        is_proof_of(found, pair@, *response, own_key@),
{
    ProbeProof {
        own_key_valid: key_is_valid(own_key),
        challenge_signed: signature_holds(
            own_key,
            pair.challenge.payload.as_slice(),
            pair.challenge.signature.as_slice(),
        ),
        response_signed: match response {
            Ok(SignedPayload::PriorHomeResponse(r)) => key_is_valid(&r.subject_key)
                && signature_holds(
                &r.subject_key,
                pair.response.payload.as_slice(),
                pair.response.signature.as_slice(),
            ),
            _ => false,
        },
        challenge_hash: sha256(pair.challenge.payload.as_slice()),
    }
}

/// Whether `subject` is what becomes of an answered challenge, and `after`
/// what becomes of the budgets `before`: a refusal counts against none, and
/// whatever else the budget of the key that was proved decides.
pub open spec fn is_outcome(
    refusal: Option<PriorHomeRefusal>,
    response: Parsed,
    subject: Result<[u8; 32], PriorHomeRefusal>,
    before: window::Windows,
    after: window::Windows,
    budget: u32,
    now_secs: u64,
) -> bool {
    let key = response->Ok_0->PriorHomeResponse_0.subject_key;
    let length = PriorHomeRateLimiter::WINDOW_SECS;
    match refusal {
        Some(e) => subject == Err::<[u8; 32], PriorHomeRefusal>(e) && after == before,
        None => {
            &&& after == window::after_request(before, key@, now_secs, length, budget)
            &&& if window::admits(before, key@, now_secs, length, budget) {
                subject == Ok::<[u8; 32], PriorHomeRefusal>(key)
            } else {
                subject == Err::<[u8; 32], PriorHomeRefusal>(PriorHomeRefusal::TooManyRequests)
            }
        },
    }
}

/// Verifies an answered challenge and counts it against the budget of the key
/// that it proves. `challenge` and `response` are what the payloads of the
/// body parse to, and `ended` are the stored deactivations.
pub fn verify_prior_home_request(
    body: &[u8],
    challenge: &Parsed,
    response: &Parsed,
    own_key: &[u8; 32],
    now_ms: u64,
    ended: &Vec<Option<Parsed>>,
    limiter: &mut PriorHomeRateLimiter,
    now_secs: u64,
) -> (subject: Result<[u8; 32], PriorHomeRefusal>)
    requires
        old(limiter).wf(),
    ensures
        final(limiter).wf(),
        final(limiter).budget() == old(limiter).budget(),
        pair_in(body@) is None ==> subject == Err::<[u8; 32], PriorHomeRefusal>(
            PriorHomeRefusal::Malformed,
        ) && final(limiter)@ == old(limiter)@,
        pair_in(body@) matches Some(pair) ==> exists|found: ProbeProof| #[trigger]
            is_proof_of(found, pair, *response, own_key@) && is_outcome(
                probe_refusal(
                    *challenge,
                    *response,
                    own_key@,
                    now_ms,
                    found,
                    subject_is_ended(*response, ended@),
                ),
                *response,
                subject,
                old(limiter)@,
                final(limiter)@,
                old(limiter).budget(),
                now_secs,
            ),
{
    let pair: ProbePair = match open_probe(body) {
        Ok(p) => p,
        Err(e) => return Err(e),
    };
    let found: ProbeProof = prove_probe(&pair, response, own_key);
    assert(is_proof_of(found, pair_in(body@)->Some_0, *response, own_key@));
    let deactivated: bool = match response {
        Ok(SignedPayload::PriorHomeResponse(r)) => is_subject_deactivated(ended, &r.subject_key),
        _ => false,
    };
    let key: [u8; 32] = match judge_probe(
        challenge,
        response,
        own_key,
        now_ms,
        &found,
        deactivated,
    ) {
        Ok(k) => k,
        Err(e) => return Err(e),
    };
    if !limiter.try_admit_at(key, now_secs) {
        return Err(PriorHomeRefusal::TooManyRequests);
    }
    Ok(key)
}

/// Whether a stored payload is the deactivation of a user.
pub open spec fn deactivates(row: Option<Parsed>, subject: Seq<u8>) -> bool {
    row matches Some(Ok(SignedPayload::Deactivation(d))) && d.user@ == subject
}

/// Whether one of the stored deactivations is the subject's.
pub open spec fn is_ended(rows: Seq<Option<Parsed>>, subject: Seq<u8>) -> bool {
    exists|i: int| 0 <= i < rows.len() && deactivates(#[trigger] rows[i], subject)
}

/// Whether the subject of a response is deactivated.
pub open spec fn subject_is_ended(response: Parsed, rows: Seq<Option<Parsed>>) -> bool {
    response matches Ok(SignedPayload::PriorHomeResponse(r)) && is_ended(rows, r.subject_key@)
}

/// Whether one of the stored deactivations is the subject's. An entry is
/// `None` where the payload was erased.
pub fn is_subject_deactivated(rows: &Vec<Option<Parsed>>, subject: &[u8; 32]) -> (yes: bool)
    ensures
        yes == is_ended(rows@, subject@),
{
    let mut i: usize = 0;
    while i < rows.len()
        invariant
            i <= rows.len(),
            forall|j: int| 0 <= j < i ==> !deactivates(#[trigger] rows@[j], subject@),
        decreases rows.len() - i,
    {
        if let Some(Ok(SignedPayload::Deactivation(d))) = &rows[i] {
            if same_key(&d.user, subject) {
                assert(deactivates(rows@[i as int], subject@));
                return true;
            }
        }
        i += 1;
    }
    false
}

/// The Unix milliseconds of a stored timestamp: 0 where it has not its form.
pub fn iso_to_unix_ms(iso: &str) -> (ms: u64)
    ensures
        ms == match timestamp::unix_ms_of(iso@) {
            Some(ms) => ms,
            None => 0,
        },
{
    match iso8601_to_unix_ms(iso) {
        Some(ms) => ms,
        None => 0,
    }
}

/// The entries of an answer to a probe.
pub open spec fn probe_entries(has_activity: bool, earliest_seen: Option<u64>) -> Seq<
    (CborView, CborView),
> {
    let e = Seq::<(CborView, CborView)>::empty();
    let seen = match earliest_seen {
        Some(ts) => if has_activity {
            e.push((CborView::Text("earliest_seen"@), CborView::Integer(ts as int)))
        } else {
            e
        },
        None => e,
    };
    seen.push((CborView::Text("has_activity"@), CborView::Bool(has_activity)))
}

/// The answer to a probe on the wire.
pub fn encode_probe_body(has_activity: bool, earliest_seen: Option<u64>) -> (body: Vec<u8>)
    ensures
        body@ == cbor::cbor_encoding(CborView::Dict(probe_entries(has_activity, earliest_seen))),
        cbor::cbor_decoding(body@) == Some(
            CborView::Dict(probe_entries(has_activity, earliest_seen)),
        ),
{
    let mut dict = DictBuilder::new();
    if let Some(ts) = earliest_seen {
        if has_activity {
            dict.put("earliest_seen", cbor::uint(ts));
        }
    }
    dict.put("has_activity", Cbor::Bool(has_activity));
    proof {
        assert(dict@ == probe_entries(has_activity, earliest_seen));
        fields::lemma_plain_is_writable(dict@);
    }
    let item: Cbor = dict.finish();
    cbor::encode(&item)
}

/// Answers a probe for a key that was proved: `registered_at` is when the key
/// came to live here, if it lives here.
pub fn handle_probe(registered_at: &Option<String>) -> (body: Vec<u8>)
    ensures
        cbor::cbor_decoding(body@) == Some(
            CborView::Dict(
                match *registered_at {
                    Some(at) => probe_entries(
                        true,
                        Some(
                            match timestamp::unix_ms_of(at@) {
                                Some(ms) => ms,
                                None => 0,
                            },
                        ),
                    ),
                    None => probe_entries(false, None),
                },
            ),
        ),
{
    match registered_at {
        Some(at) => encode_probe_body(true, Some(iso_to_unix_ms(at.as_str()))),
        None => encode_probe_body(false, None),
    }
}

/// A key that is let through was proved: this instance signed the challenge
/// and names itself in it, the key signed the answer, the answer is to this
/// very challenge, and both are fresh.
pub proof fn law_let_through_key_is_proved(
    pair: ((Seq<u8>, Seq<u8>), (Seq<u8>, Seq<u8>)),
    challenge: Parsed,
    response: Parsed,
    own_key: Seq<u8>,
    now_ms: u64,
    found: ProbeProof,
    deactivated: bool,
)
    requires
        is_proof_of(found, pair, response, own_key),
        probe_refusal(challenge, response, own_key, now_ms, found, deactivated) is None,
    ensures
        ({
            let c = challenge->Ok_0->PriorHomeChallenge_0;
            let r = response->Ok_0->PriorHomeResponse_0;
            &&& crypto::ed25519_verifies(own_key, pair.0.0, pair.0.1)
            &&& c.responder_instance_key@ == own_key
            &&& crypto::ed25519_verifies(r.subject_key@, pair.1.0, pair.1.1)
            &&& c.subject_key@ == r.subject_key@
            &&& r.challenge_hash@ == crypto::sha256_digest(pair.0.0)
            &&& now_ms <= c.expires_at
            &&& distance(now_ms, r.created_at) <= MAX_FEDERATION_CLOCK_SKEW_MS
            &&& !deactivated
        }),
{
}

/// A challenge that this instance issued is good until it runs out: an answer
/// of its subject that is fresh and bound to it is let through.
pub proof fn law_issued_challenge_is_redeemed(
    c: PriorHomeChallenge,
    r: PriorHomeResponse,
    now_ms: u64,
    found: ProbeProof,
)
    requires
        found.own_key_valid,
        found.challenge_signed,
        found.response_signed,
        r.subject_key@ == c.subject_key@,
        r.challenge_hash@ == found.challenge_hash@,
        c.expires_at == expiry_of(c.created_at),
        c.created_at <= now_ms <= expiry_of(c.created_at),
        distance(now_ms, r.created_at) <= MAX_FEDERATION_CLOCK_SKEW_MS,
    ensures
        probe_refusal(
            Ok(SignedPayload::PriorHomeChallenge(c)),
            Ok(SignedPayload::PriorHomeResponse(r)),
            c.responder_instance_key@,
            now_ms,
            found,
            false,
        ) is None,
{
}

/// Whoever names a key gets a challenge for that key: it is bound to this
/// instance, to the nonce and to the time, and may be answered for a minute.
pub proof fn law_challenges_are_for_the_key_that_is_named(
    body: &[u8],
    own_key: &[u8; 32],
    nonce: [u8; 32],
    now_ms: u64,
    challenge: Result<PriorHomeChallenge, PriorHomeRefusal>,
    key: Seq<u8>,
)
    requires
        call_ensures(handle_challenge_at, (body, own_key, nonce, now_ms), challenge),
        wire::sole_in(body@, "key"@) == Some(key),
        key.len() == 32,
    ensures
        challenge is Ok <==> crypto::ed25519_key_valid(key),
        challenge matches Err(e) ==> e is InvalidKey,
        challenge matches Ok(c) ==> {
            &&& c.subject_key@ == key
            &&& c.responder_instance_key@ == own_key@
            &&& c.nonce@ == nonce@
            &&& c.created_at == now_ms
            &&& now_ms + 60_000 <= u64::MAX ==> c.expires_at == now_ms + 60_000
            &&& now_ms + 60_000 > u64::MAX ==> c.expires_at == u64::MAX
        },
{
}

/// A body that names no key gets no challenge.
pub proof fn law_no_key_no_challenge(
    body: &[u8],
    own_key: &[u8; 32],
    nonce: [u8; 32],
    now_ms: u64,
    challenge: Result<PriorHomeChallenge, PriorHomeRefusal>,
)
    requires
        call_ensures(handle_challenge_at, (body, own_key, nonce, now_ms), challenge),
        wire::sole_in(body@, "key"@) matches Some(key) ==> key.len() != 32,
    ensures
        challenge is Err && challenge->Err_0 is Malformed,
{
}

/// An answered challenge proves its subject exactly where this instance signed
/// the challenge and is named in it, the subject signed the answer, the answer
/// names the subject and the digest of the challenge, the challenge has not run
/// out, the answer is within a minute of the clock on either side, and the
/// subject is not deactivated. What is proved is the key of the subject.
pub proof fn law_answers_prove_the_subject(
    c: PriorHomeChallenge,
    r: PriorHomeResponse,
    own_key: &[u8; 32],
    now_ms: u64,
    found: &ProbeProof,
    deactivated: bool,
    subject: Result<[u8; 32], PriorHomeRefusal>,
)
    requires
        call_ensures(
            judge_probe,
            (
                &Ok(SignedPayload::PriorHomeChallenge(c)),
                &Ok(SignedPayload::PriorHomeResponse(r)),
                own_key,
                now_ms,
                found,
                deactivated,
            ),
            subject,
        ),
    ensures
        ({
            let ours = found.challenge_signed && c.responder_instance_key@ == own_key@;
            let bound = c.subject_key@ == r.subject_key@ && r.challenge_hash@
                == found.challenge_hash@;
            let in_time = now_ms <= c.expires_at;
            let close = now_ms <= r.created_at + 60_000 && r.created_at <= now_ms + 60_000;
            let signed = ours && found.response_signed;
            &&& subject is Ok <==> found.own_key_valid && signed && bound && in_time && close
                && !deactivated
            &&& subject matches Ok(k) ==> k@ == r.subject_key@ && k@ == c.subject_key@
            &&& !found.own_key_valid ==> subject->Err_0 is Internal
            &&& found.own_key_valid ==> {
                &&& !ours ==> subject->Err_0 is WrongResponder
                &&& ours && !found.response_signed ==> subject->Err_0 is InvalidResponse
                &&& signed && !bound ==> subject->Err_0 is SubjectMismatch
                &&& signed && bound && !in_time ==> subject->Err_0 is ExpiredChallenge
                &&& signed && bound && in_time && !close ==> subject->Err_0 is SkewExceeded
                &&& signed && bound && in_time && close && deactivated ==> subject->Err_0
                    is SubjectDeactivated
            }
        }),
{
}

/// Other objects prove nothing: in the place of the challenge or of the answer
/// they are refused.
pub proof fn law_other_objects_prove_nothing(
    challenge: &Parsed,
    response: &Parsed,
    own_key: &[u8; 32],
    now_ms: u64,
    found: &ProbeProof,
    deactivated: bool,
    subject: Result<[u8; 32], PriorHomeRefusal>,
)
    requires
        call_ensures(
            judge_probe,
            (challenge, response, own_key, now_ms, found, deactivated),
            subject,
        ),
        found.own_key_valid,
        found.challenge_signed,
    ensures
        !(*challenge matches Ok(p) && p is PriorHomeChallenge) ==> subject is Err
            && subject->Err_0 is InvalidChallenge,
        *challenge matches Ok(SignedPayload::PriorHomeChallenge(c)) ==> c.responder_instance_key@
            == own_key@ ==> !(*response matches Ok(p) && p is PriorHomeResponse) ==> subject is Err
            && subject->Err_0 is InvalidResponse,
{
}

/// An answer that is refused counts against no budget; one that proves its
/// subject counts against the budget of that subject alone, and is let through
/// exactly where that budget admits it.
pub proof fn law_only_proved_keys_are_counted(
    refusal: Option<PriorHomeRefusal>,
    r: PriorHomeResponse,
    subject: Result<[u8; 32], PriorHomeRefusal>,
    before: window::Windows,
    after: window::Windows,
    budget: u32,
    now_secs: u64,
)
    requires
        is_outcome(
            refusal,
            Ok(SignedPayload::PriorHomeResponse(r)),
            subject,
            before,
            after,
            budget,
            now_secs,
        ),
    ensures
        refusal matches Some(e) ==> after == before && subject is Err && subject->Err_0 == e,
        refusal is None ==> {
            let length = PriorHomeRateLimiter::WINDOW_SECS;
            let admitted = window::admits(before, r.subject_key@, now_secs, length, budget);
            &&& after == window::after_request(before, r.subject_key@, now_secs, length, budget)
            &&& subject is Ok <==> admitted
            &&& subject matches Ok(k) ==> k@ == r.subject_key@
            &&& !admitted ==> subject->Err_0 is TooManyRequests
        },
{
}

/// A user is deactivated as soon as one of the stored deactivations, wherever
/// it stands, is their own, and not by that of another.
pub proof fn law_own_deactivations_count(
    rows: &Vec<Option<Parsed>>,
    subject: &[u8; 32],
    yes: bool,
    i: int,
)
    requires
        call_ensures(is_subject_deactivated, (rows, subject), yes),
        0 <= i < rows@.len(),
    ensures
        (rows@[i] matches Some(Ok(SignedPayload::Deactivation(d))) && d.user@ == subject@) ==> yes,
        (forall|j: int|
            0 <= j < rows@.len() ==> !((#[trigger] rows@[j]) matches Some(
                Ok(SignedPayload::Deactivation(d)),
            ) && d.user@ == subject@)) ==> !yes,
{
    if rows@[i] matches Some(Ok(SignedPayload::Deactivation(d))) && d.user@ == subject@ {
        assert(deactivates(rows@[i], subject@));
    }
}

/// The frames of an answered challenge are taken out of a body each from its
/// own place.
pub proof fn law_probes_open_to_both_objects(
    body: &[u8],
    pair: Result<ProbePair, PriorHomeRefusal>,
)
    requires
        call_ensures(open_probe, (body,), pair),
    ensures
        pair is Ok <==> (wire::two_in(body@, "challenge"@, "response"@) matches Some(two)
            && wire::signed_object_in(two.0) is Some && wire::signed_object_in(two.1) is Some),
        pair matches Ok(p) ==> {
            let two = wire::two_in(body@, "challenge"@, "response"@)->Some_0;
            &&& wire::signed_object_in(two.0) == Some(
                (p.challenge.payload@, p.challenge.signature@),
            )
            &&& wire::signed_object_in(two.1) == Some(
                (p.response.payload@, p.response.signature@),
            )
        },
        pair matches Err(e) ==> e is Malformed,
{
}

/// Whatever a caller does wrong is answered with 400, but for a subject that
/// is deactivated, with 403, and too many requests, with 429; what this
/// instance does wrong with 500.
pub proof fn law_refusals_have_their_status(r: PriorHomeRefusal, status: u16)
    requires
        call_ensures(PriorHomeRefusal::status, (&r,), status),
    ensures
        status == 500 <==> r is Internal,
        status == 403 <==> r is SubjectDeactivated,
        status == 429 <==> r is TooManyRequests,
        status == 400 <==> !(r is Internal || r is SubjectDeactivated || r is TooManyRequests),
{
}

/// A request for a challenge is answered exactly where its caller is within
/// its budget of a minute, the body names a key that is one, and that key is
/// within its own. The caller is counted first, and a key only where it is
/// reached.
pub proof fn law_challenges_are_answered_within_the_budgets(
    body: &[u8],
    ip: CallerAddr,
    limiter: &mut PriorHomeChallengeRateLimiter,
    now_secs: u64,
    verdict: Result<(), PriorHomeRefusal>,
)
    requires
        call_ensures(admit_challenge, (body, ip, limiter, now_secs), verdict),
        old(limiter).wf(),
    ensures
        ({
            let callers = old(limiter).ip_windows();
            let keys = old(limiter).key_windows();
            let used = if callers.contains_key(ip@) && now_secs < callers[ip@].start_secs + 60 {
                callers[ip@].count as int
            } else {
                0
            };
            let caller_ok = used < old(limiter).ip_budget();
            let named = wire::sole_in(body@, "key"@);
            let sound = named matches Some(k) && k.len() == 32;
            let valid = sound && crypto::ed25519_key_valid(named->Some_0);
            let key = named->Some_0;
            let asked = if keys.contains_key(key) && now_secs < keys[key].start_secs + 60 {
                keys[key].count as int
            } else {
                0
            };
            let key_ok = asked < old(limiter).key_budget();
            &&& verdict is Ok <==> caller_ok && valid && key_ok
            &&& !caller_ok ==> verdict->Err_0 is TooManyRequests
            &&& caller_ok && !sound ==> verdict->Err_0 is Malformed
            &&& caller_ok && sound && !valid ==> verdict->Err_0 is InvalidKey
            &&& caller_ok && valid && !key_ok ==> verdict->Err_0 is TooManyRequests
            &&& final(limiter).ip_windows()[ip@].count == if caller_ok {
                used + 1
            } else {
                used
            }
            &&& !(caller_ok && valid) ==> final(limiter).key_windows() == keys
            &&& caller_ok && valid ==> final(limiter).key_windows()[key].count == if key_ok {
                asked + 1
            } else {
                asked
            }
        }),
{
}

/// Whoever proves a key by an answered challenge is let through as long as the
/// budget of that key lasts: both objects are in the body, this instance signed
/// the challenge and is named in it, the key signed the answer to it, and both
/// are in time.
pub proof fn law_proved_keys_are_let_through(
    body: &[u8],
    c: PriorHomeChallenge,
    r: PriorHomeResponse,
    own_key: &[u8; 32],
    now_ms: u64,
    ended: &Vec<Option<Parsed>>,
    limiter: &mut PriorHomeRateLimiter,
    now_secs: u64,
    subject: Result<[u8; 32], PriorHomeRefusal>,
    pair: ((Seq<u8>, Seq<u8>), (Seq<u8>, Seq<u8>)),
)
    requires
        call_ensures(
            verify_prior_home_request,
            (
                body,
                &Ok(SignedPayload::PriorHomeChallenge(c)),
                &Ok(SignedPayload::PriorHomeResponse(r)),
                own_key,
                now_ms,
                ended,
                limiter,
                now_secs,
            ),
            subject,
        ),
        old(limiter).wf(),
        pair_in(body@) == Some(pair),
        crypto::ed25519_key_valid(own_key@),
    ensures
        ({
            let key = r.subject_key@;
            let proved = crypto::ed25519_verifies(own_key@, pair.0.0, pair.0.1)
                && c.responder_instance_key@ == own_key@ && crypto::ed25519_key_valid(key)
                && crypto::ed25519_verifies(key, pair.1.0, pair.1.1) && c.subject_key@ == key
                && r.challenge_hash@ == crypto::sha256_digest(pair.0.0) && now_ms <= c.expires_at
                && now_ms <= r.created_at + 60_000 && r.created_at <= now_ms + 60_000
                && !is_ended(ended@, key);
            let t = old(limiter)@;
            let used = if t.contains_key(key) && now_secs < t[key].start_secs + 86_400 {
                t[key].count as int
            } else {
                0
            };
            &&& subject is Ok <==> proved && used < old(limiter).budget()
            &&& subject matches Ok(k) ==> k@ == key
            &&& !proved ==> final(limiter)@ == t
            &&& proved && used >= old(limiter).budget() ==> subject->Err_0 is TooManyRequests
            &&& subject is Ok ==> final(limiter)@[key].count == used + 1
        }),
{
}

/// The codes by which a caller tells the refusals apart, where they are told.
pub proof fn law_refusals_have_their_codes(r: PriorHomeRefusal, code: Option<&'static str>)
    requires
        call_ensures(PriorHomeRefusal::code, (&r,), code),
    ensures
        r is Internal || r is TooManyRequests ==> code is None,
        code matches Some(c) ==> c@ == match r {
            PriorHomeRefusal::Malformed => "malformed"@,
            PriorHomeRefusal::InvalidKey => "invalid_key"@,
            PriorHomeRefusal::WrongResponder => "wrong_responder"@,
            PriorHomeRefusal::InvalidChallenge => "invalid_challenge"@,
            PriorHomeRefusal::InvalidResponse => "invalid_response"@,
            PriorHomeRefusal::SubjectMismatch => "subject_mismatch"@,
            PriorHomeRefusal::ExpiredChallenge => "expired_challenge"@,
            PriorHomeRefusal::SkewExceeded => "skew_exceeded"@,
            _ => "subject_deactivated"@,
        },
        !(r is Internal || r is TooManyRequests) ==> code is Some,
{
}

/// A challenge is issued for every key that is one, and for no other.
pub proof fn law_keys_that_are_keys_get_challenges(
    key: &[u8; 32],
    valid: bool,
    own_key: &[u8; 32],
    nonce: [u8; 32],
    now_ms: u64,
    challenge: Result<PriorHomeChallenge, PriorHomeRefusal>,
)
    requires
        call_ensures(issue_challenge, (key, valid, own_key, nonce, now_ms), challenge),
    ensures
        challenge is Ok <==> valid,
        challenge matches Ok(c) ==> c.subject_key@ == key@ && c.responder_instance_key@
            == own_key@ && c.nonce@ == nonce@ && c.created_at == now_ms && (now_ms + 60_000
            <= u64::MAX ==> c.expires_at == now_ms + 60_000),
        challenge matches Err(e) ==> e is InvalidKey,
{
}

/// A body that holds no answered challenge proves nothing, and counts against
/// no budget.
pub proof fn law_malformed_answers_prove_nothing(
    body: &[u8],
    challenge: &Parsed,
    response: &Parsed,
    own_key: &[u8; 32],
    now_ms: u64,
    ended: &Vec<Option<Parsed>>,
    limiter: &mut PriorHomeRateLimiter,
    now_secs: u64,
    subject: Result<[u8; 32], PriorHomeRefusal>,
)
    requires
        call_ensures(
            verify_prior_home_request,
            (body, challenge, response, own_key, now_ms, ended, limiter, now_secs),
            subject,
        ),
        old(limiter).wf(),
        pair_in(body@) is None,
    ensures
        subject is Err && subject->Err_0 is Malformed,
        final(limiter)@ == old(limiter)@,
        final(limiter).budget() == old(limiter).budget(),
{
}

/// What is told of when a key came is the time on record, and the epoch where
/// that cannot be read.
pub proof fn law_times_on_record_are_told(iso: &str, ms: u64)
    requires
        call_ensures(iso_to_unix_ms, (iso,), ms),
    ensures
        timestamp::unix_ms_of(iso@) matches Some(n) ==> ms == n,
        timestamp::unix_ms_of(iso@) is None ==> ms == 0,
{
}

} // verus!
