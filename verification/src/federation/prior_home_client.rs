//! Asking an instance whether it is the former home of a key: the requests
//! that go out, and how the replies are read.

use vstd::prelude::*;
use vstd::string::StringExecFns;

use crate::cbor;
use crate::cbor::{Cbor, CborView};
use crate::crypto;
use crate::crypto::sha256;
use crate::federation::fields;
use crate::federation::fields::{find_field, flag_field, uint_field, Field, FieldKind, FieldRef};
use crate::federation::prior_home;
use crate::federation::signed::{PriorHomeChallenge, PriorHomeResponse, SignedObject, SignedPayload};
use crate::federation::transport;
use crate::federation::transport::TransportError;
use crate::federation::wire;
use crate::federation::wire::{decode_signed_object, read_sole, write_sole, write_two};
use crate::text::same_text;
use crate::timestamp;

verus! {

/// Where a challenge is asked for.
pub const CHALLENGE_PATH: &'static str = "/federation/v1/prior-home/challenge";

/// Where an answered challenge is redeemed.
pub const PROBE_PATH: &'static str = "/federation/v1/prior-home/probe";

/// What an instance tells of a key.
#[derive(Clone, Copy, Debug, PartialEq, Eq)]
pub struct ProbeOutcome {
    pub has_activity: bool,
    pub earliest_seen: Option<u64>,
}

/// Why an instance could not be asked.
#[derive(Clone, Copy, Debug)]
pub enum ProbeError {
    Transport(TransportError),
    Status(u16),
    Decode(&'static str),
}

/// The number of an HTTP status and its name.
pub uninterp spec fn status_line(status: u16) -> Seq<char>;

/// `http::StatusCode::to_string`, of a status in the range that
/// `StatusCode::from_u16` takes: by the status alone.
#[verifier::external_body]
pub(crate) fn render_status(status: u16) -> (text: String)
    requires
        100 <= status <= 999,
    ensures
        text@ == status_line(status),
{
    http::StatusCode::from_u16(status).unwrap().to_string()
}

/// What a probe error says.
pub open spec fn error_text(e: ProbeError) -> Seq<char> {
    match e {
        ProbeError::Transport(t) => "prior-home probe transport error: "@ + transport::error_text(
            t,
        ),
        ProbeError::Status(s) => "prior-home probe status "@ + status_line(s),
        ProbeError::Decode(why) => "prior-home probe decode error: "@ + why@,
    }
}

impl ProbeError {
    /// What the error says.
    pub fn display(&self) -> (text: String)
        requires
            *self matches ProbeError::Status(s) ==> 100 <= s <= 999,
        ensures
            text@ == error_text(*self),
    {
        let mut out: String = String::new();
        match self {
            ProbeError::Transport(t) => {
                out.append("prior-home probe transport error: ");
                out.append(t.display().as_str());
            },
            ProbeError::Status(s) => {
                out.append("prior-home probe status ");
                out.append(render_status(*s).as_str());
            },
            ProbeError::Decode(why) => {
                out.append("prior-home probe decode error: ");
                out.append(why);
            },
        }
        assert(out@ =~= error_text(*self));
        out
    }
}

/// The body that asks for a challenge for a key.
pub fn encode_challenge_request(key: &[u8; 32]) -> (body: Vec<u8>)
    ensures
        body@ == cbor::cbor_encoding(wire::sole_body("key"@, key@)),
        cbor::cbor_decoding(body@) == Some(wire::sole_body("key"@, key@)),
        prior_home::challenge_key_in(body@) == Some(key@),
{
    write_sole("key", key.as_slice())
}

/// The body that redeems a challenge.
pub fn encode_probe_request(challenge_wire: &[u8], response_wire: &[u8]) -> (body: Vec<u8>)
    ensures
        body@ == cbor::cbor_encoding(
            wire::two_body("challenge"@, challenge_wire@, "response"@, response_wire@),
        ),
        cbor::cbor_decoding(body@) == Some(
            wire::two_body("challenge"@, challenge_wire@, "response"@, response_wire@),
        ),
        wire::two_in(body@, "challenge"@, "response"@) == Some(
            (challenge_wire@, response_wire@),
        ),
{
    write_two("challenge", challenge_wire, "response", response_wire)
}

/// Reads the challenge from the reply.
pub fn parse_challenge_response(body: &[u8]) -> (challenge: Option<Vec<u8>>)
    ensures
        match challenge {
            Some(c) => wire::sole_in(body@, "challenge"@) == Some(c@),
            None => wire::sole_in(body@, "challenge"@) is None,
        },
{
    read_sole(body, "challenge")
}

/// Whether a map has no keys but those of an answer to a probe.
pub open spec fn has_probe_keys(e: Seq<(CborView, CborView)>) -> bool {
    forall|i: int|
        #![trigger e[i]]
        0 <= i < e.len() ==> e[i].0 == CborView::Text("has_activity"@) || e[i].0 == CborView::Text(
            "earliest_seen"@,
        )
}

/// The answer to a probe that the entries of a map hold, if they hold one: the
/// time is there exactly where there is activity.
pub open spec fn outcome_of(e: Seq<(CborView, CborView)>) -> Option<ProbeOutcome> {
    let active = fields::field(e, "has_activity"@, FieldKind::Flag);
    let seen = fields::field(e, "earliest_seen"@, FieldKind::Uint);
    if has_probe_keys(e) && active is Is && !(seen is Bad) && active->Is_0->Bool_0 == (seen is Is) {
        Some(
            ProbeOutcome {
                has_activity: active->Is_0->Bool_0,
                earliest_seen: match seen {
                    Field::Is(v) => Some(v->Integer_0 as u64),
                    _ => None,
                },
            },
        )
    } else {
        None
    }
}

/// The answer to a probe that a body holds, if it holds one.
pub open spec fn outcome_in(body: Seq<u8>) -> Option<ProbeOutcome> {
    match cbor::cbor_decoding(body) {
        Some(CborView::Dict(e)) => outcome_of(e),
        _ => None,
    }
}

fn only_probe_keys(entries: &Vec<(Cbor, Cbor)>) -> (yes: bool)
    ensures
        yes == has_probe_keys(cbor::entries_view(entries@)),
{
    let ghost e = cbor::entries_view(entries@);
    let mut i: usize = 0;
    while i < entries.len()
        invariant
            i <= entries.len(),
            e == cbor::entries_view(entries@),
            forall|j: int|
                #![trigger e[j]]
                0 <= j < i ==> e[j].0 == CborView::Text("has_activity"@) || e[j].0
                    == CborView::Text("earliest_seen"@),
        decreases entries.len() - i,
    {
        let known: bool = match &entries[i].0 {
            Cbor::Text(t) => same_text(t.as_str(), "has_activity") || same_text(
                t.as_str(),
                "earliest_seen",
            ),
            _ => false,
        };
        assert(e[i as int].0 == entries@[i as int].0@);
        if !known {
            return false;
        }
        i += 1;
    }
    true
}

/// Reads the answer to a probe.
pub fn parse_probe_response(body: &[u8]) -> (outcome: Option<ProbeOutcome>)
    ensures
        outcome == outcome_in(body@),
{
    let item: Cbor = match cbor::decode(body) {
        Some(item) => item,
        None => return None,
    };
    proof {
        cbor::lemma_dict_view(item);
    }
    let entries: &Vec<(Cbor, Cbor)> = match &item {
        Cbor::Dict(entries) => entries,
        _ => return None,
    };
    if !only_probe_keys(entries) {
        return None;
    }
    if matches!(find_field(entries, "earliest_seen", FieldKind::Uint), FieldRef::Bad) {
        return None;
    }
    let has_activity: bool = match flag_field(entries, "has_activity") {
        Some(active) => active,
        None => return None,
    };
    let earliest_seen: Option<u64> = uint_field(entries, "earliest_seen");
    if has_activity != earliest_seen.is_some() {
        return None;
    }
    Some(ProbeOutcome { has_activity, earliest_seen })
}

/// What an instance answers, the one that asked reads: the activity, and
/// since when, where there is any.
pub proof fn law_probe_answer_reads_back(has_activity: bool, earliest_seen: Option<u64>)
    requires
        has_activity ==> earliest_seen is Some,
    ensures
        outcome_of(prior_home::probe_entries(has_activity, earliest_seen)) == Some(
            ProbeOutcome {
                has_activity,
                earliest_seen: if has_activity {
                    earliest_seen
                } else {
                    None
                },
            },
        ),
{
    fields::lemma_field_push();
    reveal_strlit("has_activity");
    reveal_strlit("earliest_seen");
    assert("has_activity"@.len() == 12);
    assert("earliest_seen"@.len() == 13);
}

/// The answer to a challenge: it names the key, the digest of the challenge
/// and the time.
pub fn answer_challenge(subject_key: &[u8; 32], challenge_payload: &[u8], now_ms: u64) -> (
response: PriorHomeResponse)
    ensures
        response.subject_key@ == subject_key@,
        response.challenge_hash@ == crypto::sha256_digest(challenge_payload@),
        response.created_at == now_ms,
{
    PriorHomeResponse {
        subject_key: *subject_key,
        challenge_hash: sha256(challenge_payload),
        created_at: now_ms,
    }
}

/// Whether a status tells of success.
pub open spec fn is_success(status: u16) -> bool {
    200 <= status <= 299
}

/// A challenge that was received: its frame, and its payload.
#[derive(Debug)]
pub struct ReceivedChallenge {
    pub framed: Vec<u8>,
    pub payload: Vec<u8>,
}

/// Reads the reply to a request for a challenge.
pub fn take_challenge(status: u16, body: &[u8]) -> (challenge: Result<
    ReceivedChallenge,
    ProbeError,
>)
    ensures
        match challenge {
            Ok(c) => is_success(status) && wire::sole_in(body@, "challenge"@) == Some(c.framed@)
                && wire::signed_object_in(c.framed@) is Some && wire::signed_object_in(
                c.framed@,
            )->Some_0.0 == c.payload@,
            Err(ProbeError::Status(s)) => !is_success(status) && s == status,
            Err(ProbeError::Decode(why)) => is_success(status) && (if wire::sole_in(
                body@,
                "challenge"@,
            ) is None {
                why@ == "challenge response missing `challenge`"@
            } else {
                wire::signed_object_in(wire::sole_in(body@, "challenge"@)->Some_0) is None && why@
                    == "challenge wire is not a SignedObject"@
            }),
            Err(ProbeError::Transport(_)) => false,
        },
{
    if status < 200 || status > 299 {
        return Err(ProbeError::Status(status));
    }
    let framed: Vec<u8> = match parse_challenge_response(body) {
        Some(c) => c,
        None => return Err(ProbeError::Decode("challenge response missing `challenge`")),
    };
    let object: SignedObject = match decode_signed_object(framed.as_slice()) {
        Some(o) => o,
        None => return Err(ProbeError::Decode("challenge wire is not a SignedObject")),
    };
    Ok(ReceivedChallenge { framed, payload: object.payload })
}

/// Reads the reply to an answered challenge.
pub fn take_outcome(status: u16, body: &[u8]) -> (outcome: Result<ProbeOutcome, ProbeError>)
    ensures
        match outcome {
            Ok(o) => is_success(status) && outcome_in(body@) == Some(o),
            Err(ProbeError::Status(s)) => !is_success(status) && s == status,
            Err(ProbeError::Decode(why)) => is_success(status) && outcome_in(body@) is None && why@
                == "probe response missing `has_activity`"@,
            Err(ProbeError::Transport(_)) => false,
        },
{
    if status < 200 || status > 299 {
        return Err(ProbeError::Status(status));
    }
    match parse_probe_response(body) {
        Some(o) => Ok(o),
        None => Err(ProbeError::Decode("probe response missing `has_activity`")),
    }
}

/// An instance asks for a challenge, gets one, answers it and is believed: the
/// key that it asked for is the one that is proved, as long as it answers in
/// time and the signatures hold.
pub proof fn law_asking_a_former_home_proves_the_key(
    key: &[u8; 32],
    asked: Vec<u8>,
    body: &[u8],
    responder_key: &[u8; 32],
    nonce: [u8; 32],
    issued_at: u64,
    challenge: Result<PriorHomeChallenge, prior_home::PriorHomeRefusal>,
    challenge_payload: &[u8],
    answered_at: u64,
    response: PriorHomeResponse,
    found: &prior_home::ProbeProof,
    now_ms: u64,
    subject: Result<[u8; 32], prior_home::PriorHomeRefusal>,
)
    requires
        call_ensures(encode_challenge_request, (key,), asked),
        body@ == asked@,
        crypto::ed25519_key_valid(key@),
        call_ensures(
            prior_home::handle_challenge_at,
            (body, responder_key, nonce, issued_at),
            challenge,
        ),
        call_ensures(answer_challenge, (key, challenge_payload, answered_at), response),
        found.own_key_valid,
        found.challenge_signed,
        found.response_signed,
        found.challenge_hash@ == crypto::sha256_digest(challenge_payload@),
        issued_at <= answered_at <= now_ms <= issued_at + 60_000,
        challenge is Ok ==> call_ensures(
            prior_home::judge_probe,
            (
                &Ok(SignedPayload::PriorHomeChallenge(challenge->Ok_0)),
                &Ok(SignedPayload::PriorHomeResponse(response)),
                responder_key,
                now_ms,
                found,
                false,
            ),
            subject,
        ),
    ensures
        challenge is Ok,
        subject matches Ok(k) && k@ == key@,
{
}

/// What a former home answers is what the one that asked reads: activity
/// exactly where the key lives there, and since when.
pub proof fn law_the_answer_is_what_is_read(
    registered_at: &Option<String>,
    answer: Vec<u8>,
    body: &[u8],
    status: u16,
    outcome: Result<ProbeOutcome, ProbeError>,
)
    requires
        call_ensures(prior_home::handle_probe, (registered_at,), answer),
        body@ == answer@,
        200 <= status <= 299,
        call_ensures(take_outcome, (status, body), outcome),
    ensures
        outcome is Ok,
        outcome->Ok_0.has_activity <==> *registered_at is Some,
        *registered_at is None ==> outcome->Ok_0.earliest_seen is None,
        *registered_at matches Some(at) ==> (timestamp::unix_ms_of(at@) matches Some(ms) ==> (
        outcome->Ok_0.earliest_seen == Some(ms))),
{
    law_probe_answer_reads_back(false, None);
    if let Some(at) = *registered_at {
        match timestamp::unix_ms_of(at@) {
            Some(ms) => law_probe_answer_reads_back(true, Some(ms)),
            None => law_probe_answer_reads_back(true, Some(0u64)),
        }
    }
}

/// A reply is read exactly where it tells of success: any other status is the
/// error.
pub proof fn law_only_successes_are_read(
    status: u16,
    body: &[u8],
    challenge: Result<ReceivedChallenge, ProbeError>,
    outcome: Result<ProbeOutcome, ProbeError>,
)
    requires
        call_ensures(take_challenge, (status, body), challenge),
        call_ensures(take_outcome, (status, body), outcome),
    ensures
        status < 200 || status > 299 ==> challenge is Err && challenge->Err_0
            == ProbeError::Status(status) && outcome is Err && outcome->Err_0
            == ProbeError::Status(status),
        200 <= status <= 299 ==> {
            &&& challenge is Ok <==> (wire::sole_in(body@, "challenge"@) matches Some(c)
                && wire::signed_object_in(c) is Some)
            &&& challenge is Err ==> challenge->Err_0 is Decode
            &&& outcome is Err ==> outcome->Err_0 is Decode
            &&& challenge matches Ok(c) ==> wire::sole_in(body@, "challenge"@) == Some(c.framed@)
                && (wire::signed_object_in(c.framed@) matches Some(o) && o.0 == c.payload@)
        },
{
}

/// An answer that is read says since when there was activity exactly where it
/// says that there was any.
pub proof fn law_activity_has_its_time(body: &[u8], outcome: Option<ProbeOutcome>)
    requires
        call_ensures(parse_probe_response, (body,), outcome),
    ensures
        outcome matches Some(o) ==> (o.has_activity <==> o.earliest_seen is Some),
{
}

} // verus!
