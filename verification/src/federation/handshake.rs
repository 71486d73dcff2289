//! What becomes of a peer's record: a request is recorded, an answer makes it
//! active or archives it, and a termination ends it.

use vstd::prelude::*;
use vstd::utf8::*;

use crate::bytes::{key_from_slice, same_key};
use crate::cbor;
use crate::cbor::{ArrayBuilder, Cbor, CborView, DictBuilder};
use crate::clock::now_ms;
use crate::federation::domain;
use crate::federation::domain::parse_instance_domain;
use crate::federation::fields;
use crate::federation::fields::{text_array, texts};
use crate::federation::peering;
use crate::federation::peering::{
    PeerDecision, PeerRelationshipDeleteBody, PeerRequest, PeerRequestBody, PeerResponse,
    PeerResponseBody, TerminationReason, MAX_DOMAIN_LEN, MAX_MESSAGE_LEN,
};
use crate::federation::transport::TransportError;
use crate::random;
use crate::random::{random_16, v4_shaped};
use crate::text::same_text;
use crate::timestamp;
use crate::timestamp::iso8601_to_unix_ms;

verus! {

/// Where a peering stands.
#[derive(Clone, Copy, Debug, PartialEq, Eq, Structural)]
pub enum PeerStatus {
    /// This instance asked, and the other has not answered.
    PendingOutbound,
    /// The other instance asked, and this one has not answered.
    PendingInbound,
    Active,
    Rejected,
    Terminated,
}

impl PeerStatus {
    /// The word under which the status is stored.
    pub open spec fn text(&self) -> Seq<char> {
        match self {
            PeerStatus::PendingOutbound => "pending_outbound"@,
            PeerStatus::PendingInbound => "pending_inbound"@,
            PeerStatus::Active => "active"@,
            PeerStatus::Rejected => "rejected"@,
            PeerStatus::Terminated => "terminated"@,
        }
    }

    /// The word under which the status is stored.
    pub fn as_str(&self) -> (word: &'static str)
        ensures
            word@ == self.text(),
    {
        match self {
            PeerStatus::PendingOutbound => "pending_outbound",
            PeerStatus::PendingInbound => "pending_inbound",
            PeerStatus::Active => "active",
            PeerStatus::Rejected => "rejected",
            PeerStatus::Terminated => "terminated",
        }
    }

    /// The status that a stored word names, if it names one.
    pub fn parse(word: &str) -> (status: Option<PeerStatus>)
        ensures
            match status {
                Some(s) => word@ == s.text(),
                None => forall|s: PeerStatus| word@ != #[trigger] s.text(),
            },
    {
        let all: [PeerStatus; 5] = [
            PeerStatus::PendingOutbound,
            PeerStatus::PendingInbound,
            PeerStatus::Active,
            PeerStatus::Rejected,
            PeerStatus::Terminated,
        ];
        let mut i: usize = 0;
        while i < 5
            invariant
                i <= 5,
                all@ == seq![
                    PeerStatus::PendingOutbound,
                    PeerStatus::PendingInbound,
                    PeerStatus::Active,
                    PeerStatus::Rejected,
                    PeerStatus::Terminated,
                ],
                forall|j: int| 0 <= j < i ==> word@ != (#[trigger] all@[j]).text(),
            decreases 5 - i,
        {
            if same_text(word, all[i].as_str()) {
                return Some(all[i]);
            }
            i += 1;
        }
        assert forall|s: PeerStatus| word@ != #[trigger] s.text() by {
            match s {
                PeerStatus::PendingOutbound => assert(s == all@[0]),
                PeerStatus::PendingInbound => assert(s == all@[1]),
                PeerStatus::Active => assert(s == all@[2]),
                PeerStatus::Rejected => assert(s == all@[3]),
                PeerStatus::Terminated => assert(s == all@[4]),
            }
        }
        None
    }
}

/// Who asked for a peering.
#[derive(Clone, Copy, Debug, PartialEq, Eq, Structural)]
pub enum PeerDirection {
    /// This instance.
    Outbound,
    /// The other one.
    Inbound,
}

impl PeerDirection {
    /// The word under which the direction is stored.
    pub open spec fn text(&self) -> Seq<char> {
        match self {
            PeerDirection::Outbound => "outbound"@,
            PeerDirection::Inbound => "inbound"@,
        }
    }

    /// The word under which the direction is stored.
    pub fn as_str(&self) -> (word: &'static str)
        ensures
            word@ == self.text(),
    {
        match self {
            PeerDirection::Outbound => "outbound",
            PeerDirection::Inbound => "inbound",
        }
    }

    /// The direction that a stored word names, if it names one.
    pub fn parse(word: &str) -> (direction: Option<PeerDirection>)
        ensures
            match direction {
                Some(d) => word@ == d.text(),
                None => forall|d: PeerDirection| word@ != #[trigger] d.text(),
            },
    {
        if same_text(word, "outbound") {
            Some(PeerDirection::Outbound)
        } else if same_text(word, "inbound") {
            Some(PeerDirection::Inbound)
        } else {
            None
        }
    }
}

/// The record of a peer.
#[verifier::ext_equal]
pub struct PeerRecord {
    pub instance_pubkey: Seq<u8>,
    pub instance_domain: Seq<char>,
    pub status: PeerStatus,
    pub direction: PeerDirection,
    pub request_id: Seq<u8>,
    pub capabilities: Seq<u8>,
    pub agreed_capabilities: Option<Seq<u8>>,
    pub decision_message: Option<Seq<char>>,
    pub termination_reason: Option<TerminationReason>,
}

/// The record of a peer, as it is stored.
#[derive(Debug)]
pub struct PeerRow {
    pub instance_pubkey: Vec<u8>,
    pub instance_domain: String,
    pub status: PeerStatus,
    pub direction: PeerDirection,
    pub request_id: Vec<u8>,
    /// The proposed capabilities in their stored form.
    pub capabilities: Vec<u8>,
    /// The agreed capabilities in their stored form.
    pub agreed_capabilities: Option<Vec<u8>>,
    pub decision_message: Option<String>,
    pub termination_reason: Option<TerminationReason>,
}

impl PeerRow {
    /// What the record holds.
    pub open spec fn view(&self) -> PeerRecord {
        PeerRecord {
            instance_pubkey: self.instance_pubkey@,
            instance_domain: self.instance_domain@,
            status: self.status,
            direction: self.direction,
            request_id: self.request_id@,
            capabilities: self.capabilities@,
            agreed_capabilities: peering::optional_bytes(self.agreed_capabilities),
            decision_message: fields::optional_text(self.decision_message),
            termination_reason: self.termination_reason,
        }
    }
}

/// What an earlier record holds, if there is one.
pub open spec fn earlier_view(earlier: Option<PeerRow>) -> Option<PeerRecord> {
    match earlier {
        Some(row) => Some(row@),
        None => None,
    }
}

/// Why a body was refused.
#[derive(Clone, Copy, Debug, PartialEq, Eq, Structural)]
pub enum PeerRefusal {
    InvalidBody,
    Unauthorized,
    InvalidInitiatorDomain,
    DomainTaken,
    UnknownRequest,
    Internal,
}

impl PeerRefusal {
    /// The HTTP status that answers it.
    pub fn status(&self) -> (status: u16)
        ensures
            status == match *self {
                PeerRefusal::InvalidBody => 400u16,
                PeerRefusal::Unauthorized => 401u16,
                PeerRefusal::InvalidInitiatorDomain => 400u16,
                PeerRefusal::DomainTaken => 409u16,
                PeerRefusal::UnknownRequest => 404u16,
                PeerRefusal::Internal => 500u16,
            },
    {
        match self {
            PeerRefusal::InvalidBody => 400,
            PeerRefusal::Unauthorized => 401,
            PeerRefusal::InvalidInitiatorDomain => 400,
            PeerRefusal::DomainTaken => 409,
            PeerRefusal::UnknownRequest => 404,
            PeerRefusal::Internal => 500,
        }
    }

    /// The code that tells it, where there is one.
    pub fn code(&self) -> (code: Option<&'static str>)
        ensures
            match *self {
                PeerRefusal::InvalidBody => code matches Some(c) && c@ == "invalid_body"@,
                PeerRefusal::InvalidInitiatorDomain => code matches Some(c) && c@
                    == "invalid_initiator_domain"@,
                PeerRefusal::DomainTaken => code matches Some(c) && c@ == "domain_taken"@,
                PeerRefusal::UnknownRequest => code matches Some(c) && c@ == "unknown_request"@,
                PeerRefusal::Unauthorized => code is None,
                PeerRefusal::Internal => code is None,
            },
    {
        match self {
            PeerRefusal::InvalidBody => Some("invalid_body"),
            PeerRefusal::InvalidInitiatorDomain => Some("invalid_initiator_domain"),
            PeerRefusal::DomainTaken => Some("domain_taken"),
            PeerRefusal::UnknownRequest => Some("unknown_request"),
            PeerRefusal::Unauthorized => None,
            PeerRefusal::Internal => None,
        }
    }
}

/// Why the operator's own step failed.
#[derive(Debug)]
pub enum InitiateError {
    Transport(TransportError),
    UnexpectedStatus(u16),
    /// The store failed, or a record in it is spoiled.
    Db,
    /// The system has no randomness to give.
    NoRandomness,
    SelfPeering,
    DomainConflict,
    InvalidTargetDomain,
}

/// The stored form of a list of capabilities.
pub open spec fn stored_texts(list: Seq<Seq<char>>) -> Seq<u8> {
    cbor::cbor_encoding(fields::texts_item(list))
}

/// The list that a stored form holds, if it holds one.
pub open spec fn texts_stored(bytes: Seq<u8>) -> Option<Seq<Seq<char>>> {
    match cbor::cbor_decoding(bytes) {
        Some(item) => fields::texts_of(item),
        None => None,
    }
}

/// The stored form of a list of capabilities.
pub fn encode_text_array(items: &[String]) -> (bytes: Vec<u8>)
    ensures
        bytes@ == stored_texts(fields::texts_view(items@)),
        texts_stored(bytes@) == Some(fields::texts_view(items@)),
{
    let item: Cbor = texts(items);
    proof {
        fields::law_texts_read_back(fields::texts_view(items@));
        reveal_with_fuel(cbor::writable, 2);
    }
    cbor::encode(&item)
}

/// Reads a stored list of capabilities.
pub fn decode_text_array(bytes: &[u8]) -> (list: Option<Vec<String>>)
    ensures
        fields::optional_texts(list) == texts_stored(bytes@),
{
    match cbor::decode(bytes) {
        Some(item) => text_array(&item),
        None => None,
    }
}

/// The capabilities that a record holds: none where they cannot be read.
pub open spec fn capabilities_of(stored: Option<Seq<u8>>) -> Seq<Seq<char>> {
    match stored {
        Some(b) => match texts_stored(b) {
            Some(list) => list,
            None => Seq::empty(),
        },
        None => Seq::empty(),
    }
}

fn read_capabilities(stored: &Option<Vec<u8>>) -> (list: Vec<String>)
    ensures
        fields::texts_view(list@) == capabilities_of(peering::optional_bytes(*stored)),
{
    let none: Vec<String> = Vec::new();
    assert(fields::texts_view(none@) =~= Seq::<Seq<char>>::empty());
    match stored {
        Some(b) => match decode_text_array(b.as_slice()) {
            Some(list) => list,
            None => none,
        },
        None => none,
    }
}

/// The capabilities that both sides have, in the order of ours.
pub open spec fn common_capabilities(ours: Seq<Seq<char>>, proposed: Seq<Seq<char>>) -> Seq<
    Seq<char>,
> {
    ours.filter(|c: Seq<char>| proposed.contains(c))
}

fn lists(list: &[String], text: &str) -> (found: bool)
    ensures
        found == fields::texts_view(list@).contains(text@),
{
    let ghost all = fields::texts_view(list@);
    let mut i: usize = 0;
    while i < list.len()
        invariant
            i <= list.len(),
            all == fields::texts_view(list@),
            forall|j: int| 0 <= j < i ==> #[trigger] all[j] != text@,
        decreases list.len() - i,
    {
        if same_text(list[i].as_str(), text) {
            assert(all[i as int] == text@);
            return true;
        }
        i += 1;
    }
    false
}

/// The capabilities that both sides have, in the order of ours.
pub fn intersect_caps(ours: &[String], proposed: &[String]) -> (common: Vec<String>)
    ensures
        fields::texts_view(common@) == common_capabilities(
            fields::texts_view(ours@),
            fields::texts_view(proposed@),
        ),
{
    let ghost all = fields::texts_view(ours@);
    let ghost theirs = fields::texts_view(proposed@);
    let ghost keep = |c: Seq<char>| theirs.contains(c);
    let mut common: Vec<String> = Vec::new();
    let mut i: usize = 0;
    proof {
        reveal(Seq::filter);
        assert(all.take(0) =~= Seq::<Seq<char>>::empty());
        assert(fields::texts_view(common@) =~= all.take(0).filter(keep));
    }
    while i < ours.len()
        invariant
            i <= ours.len(),
            all == fields::texts_view(ours@),
            theirs == fields::texts_view(proposed@),
            keep == |c: Seq<char>| theirs.contains(c),
            fields::texts_view(common@) == all.take(i as int).filter(keep),
        decreases ours.len() - i,
    {
        proof {
            reveal(Seq::filter);
            assert(all.take(i + 1).drop_last() =~= all.take(i as int));
            assert(all.take(i + 1).last() == ours@[i as int]@);
        }
        let ghost before = fields::texts_view(common@);
        if lists(proposed, ours[i].as_str()) {
            common.push(ours[i].clone());
            assert(fields::texts_view(common@) =~= before.push(ours@[i as int]@));
        }
        i += 1;
    }
    assert(all.take(i as int) =~= all);
    common
}

/// Why the operator's request to a target is not made, if it is not.
pub open spec fn initiate_refusal(
    own_key: Seq<u8>,
    target_key: Seq<u8>,
    target_domain: Seq<char>,
    domain_taken: bool,
) -> Option<InitiateError> {
    if target_key == own_key {
        Some(InitiateError::SelfPeering)
    } else if !domain::is_instance_domain(target_domain) {
        Some(InitiateError::InvalidTargetDomain)
    } else if domain_taken {
        Some(InitiateError::DomainConflict)
    } else {
        None
    }
}

/// Whether `request` is what the operator's wish comes to: a request, or the
/// refusal.
pub open spec fn is_initiation(
    request: Result<PeerRequestBody, InitiateError>,
    own_key: Seq<u8>,
    initiator_domain: Seq<char>,
    target_key: Seq<u8>,
    target_domain: Seq<char>,
    domain_taken: bool,
    proposed_capabilities: Seq<Seq<char>>,
    introduction: Option<Seq<char>>,
    request_id: Seq<u8>,
    now_ms: u64,
) -> bool {
    match request {
        Ok(r) => {
            &&& initiate_refusal(own_key, target_key, target_domain, domain_taken) is None
            &&& r@ == (PeerRequest {
                initiator_domain,
                initiator_instance_pubkey: own_key,
                proposed_capabilities,
                introduction,
                request_id,
                created_at: now_ms,
            })
        },
        Err(e) => initiate_refusal(own_key, target_key, target_domain, domain_taken) == Some(e),
    }
}

/// The operator asks another instance to become a peer: the request that goes
/// out, with a fresh id and at this time. `domain_taken` says whether the
/// target's domain is on record for another key.
pub fn operator_initiate_peer_request(
    own_key: &[u8; 32],
    initiator_domain: &str,
    target_pubkey: &[u8; 32],
    target_domain: &str,
    domain_taken: bool,
    proposed_capabilities: Vec<String>,
    introduction: Option<String>,
) -> (request: Result<PeerRequestBody, InitiateError>)
    ensures
        request == Err::<PeerRequestBody, InitiateError>(InitiateError::NoRandomness)
            || exists|request_id: Seq<u8>, now_ms: u64| #[trigger]
            is_initiation(
                request,
                own_key@,
                initiator_domain@,
                target_pubkey@,
                target_domain@,
                domain_taken,
                fields::texts_view(proposed_capabilities@),
                fields::optional_text(introduction),
                request_id,
                now_ms,
            ) && random::is_v4_shaped(request_id),
        initiate_refusal(own_key@, target_pubkey@, target_domain@, domain_taken) matches Some(e)
            ==> request == Err::<PeerRequestBody, InitiateError>(e),
{
    let now: u64 = now_ms();
    let blank: [u8; 16] = [0u8; 16];
    let id: Option<[u8; 16]> = random_16();
    let drawn: [u8; 16] = match id {
        Some(i) => i,
        None => blank,
    };
    let request: Result<PeerRequestBody, InitiateError> = initiate_peer_request_at(
        own_key,
        initiator_domain,
        target_pubkey,
        target_domain,
        domain_taken,
        proposed_capabilities,
        introduction,
        v4_shaped(&drawn),
        now,
    );
    if request.is_ok() && id.is_none() {
        return Err(InitiateError::NoRandomness);
    }
    request
}

/// The request to become a peer, with an id and at a time.
pub fn initiate_peer_request_at(
    own_key: &[u8; 32],
    initiator_domain: &str,
    target_pubkey: &[u8; 32],
    target_domain: &str,
    domain_taken: bool,
    proposed_capabilities: Vec<String>,
    introduction: Option<String>,
    request_id: [u8; 16],
    now_ms: u64,
) -> (request: Result<PeerRequestBody, InitiateError>)
    ensures
        is_initiation(
            request,
            own_key@,
            initiator_domain@,
            target_pubkey@,
            target_domain@,
            domain_taken,
            fields::texts_view(proposed_capabilities@),
            fields::optional_text(introduction),
            request_id@,
            now_ms,
        ),
{
    if same_key(target_pubkey, own_key) {
        return Err(InitiateError::SelfPeering);
    }
    if parse_instance_domain(target_domain).is_err() {
        return Err(InitiateError::InvalidTargetDomain);
    }
    if domain_taken {
        return Err(InitiateError::DomainConflict);
    }
    Ok(
        PeerRequestBody {
            initiator_domain: initiator_domain.to_owned(),
            initiator_instance_pubkey: *own_key,
            proposed_capabilities,
            introduction,
            request_id,
            created_at: now_ms,
        },
    )
}

/// What the target's answer to the request means: it took it, or it did not.
pub fn initiate_outcome(status: u16) -> (outcome: Result<(), InitiateError>)
    ensures
        outcome is Ok <==> status == 202,
        outcome matches Err(e) ==> e == InitiateError::UnexpectedStatus(status),
{
    if status != 202 {
        return Err(InitiateError::UnexpectedStatus(status));
    }
    Ok(())
}

/// What the peer's answer to an acceptance or a termination means: it took
/// it, or it did not.
pub fn callback_outcome(status: u16) -> (outcome: Result<(), InitiateError>)
    ensures
        outcome is Ok <==> status == 200,
        outcome matches Err(e) ==> e == InitiateError::UnexpectedStatus(status),
{
    if status != 200 {
        return Err(InitiateError::UnexpectedStatus(status));
    }
    Ok(())
}

/// The record after this instance asked: an earlier record of the key keeps
/// its domain.
pub open spec fn after_initiate(
    earlier: Option<PeerRecord>,
    key: Seq<u8>,
    domain: Seq<char>,
    request: PeerRequest,
) -> PeerRecord {
    match earlier {
        Some(r) => PeerRecord {
            status: PeerStatus::PendingOutbound,
            direction: PeerDirection::Outbound,
            request_id: request.request_id,
            capabilities: stored_texts(request.proposed_capabilities),
            ..r
        },
        None => PeerRecord {
            instance_pubkey: key,
            instance_domain: domain,
            status: PeerStatus::PendingOutbound,
            direction: PeerDirection::Outbound,
            request_id: request.request_id,
            capabilities: stored_texts(request.proposed_capabilities),
            agreed_capabilities: None,
            decision_message: None,
            termination_reason: None,
        },
    }
}

/// The record after the other instance asked: the request's domain counts.
pub open spec fn after_request(earlier: Option<PeerRecord>, request: PeerRequest) -> PeerRecord {
    match earlier {
        Some(r) => PeerRecord {
            status: PeerStatus::PendingInbound,
            direction: PeerDirection::Inbound,
            instance_domain: request.initiator_domain,
            request_id: request.request_id,
            capabilities: stored_texts(request.proposed_capabilities),
            ..r
        },
        None => PeerRecord {
            instance_pubkey: request.initiator_instance_pubkey,
            instance_domain: request.initiator_domain,
            status: PeerStatus::PendingInbound,
            direction: PeerDirection::Inbound,
            request_id: request.request_id,
            capabilities: stored_texts(request.proposed_capabilities),
            agreed_capabilities: None,
            decision_message: None,
            termination_reason: None,
        },
    }
}

/// Records a request that this instance makes. `earlier` is what is on record
/// under the target's key.
pub fn record_initiation(
    earlier: Option<PeerRow>,
    target_pubkey: &[u8; 32],
    target_domain: &str,
    request: &PeerRequestBody,
) -> (row: PeerRow)
    ensures
        row@ == after_initiate(earlier_view(earlier), target_pubkey@, target_domain@, request@),
{
    let request_id: Vec<u8> = vstd::slice::slice_to_vec(request.request_id.as_slice());
    let capabilities: Vec<u8> = encode_text_array(request.proposed_capabilities.as_slice());
    match earlier {
        Some(r) => PeerRow {
            instance_pubkey: r.instance_pubkey,
            instance_domain: r.instance_domain,
            status: PeerStatus::PendingOutbound,
            direction: PeerDirection::Outbound,
            request_id,
            capabilities,
            agreed_capabilities: r.agreed_capabilities,
            decision_message: r.decision_message,
            termination_reason: r.termination_reason,
        },
        None => PeerRow {
            instance_pubkey: vstd::slice::slice_to_vec(target_pubkey.as_slice()),
            instance_domain: target_domain.to_owned(),
            status: PeerStatus::PendingOutbound,
            direction: PeerDirection::Outbound,
            request_id,
            capabilities,
            agreed_capabilities: None,
            decision_message: None,
            termination_reason: None,
        },
    }
}

/// Records a request that another instance made. `earlier` is what is on
/// record under its key.
pub fn record_request(earlier: Option<PeerRow>, request: &PeerRequestBody) -> (row: PeerRow)
    ensures
        row@ == after_request(earlier_view(earlier), request@),
{
    let request_id: Vec<u8> = vstd::slice::slice_to_vec(request.request_id.as_slice());
    let capabilities: Vec<u8> = encode_text_array(request.proposed_capabilities.as_slice());
    let instance_domain: String = request.initiator_domain.clone();
    match earlier {
        Some(r) => PeerRow {
            instance_pubkey: r.instance_pubkey,
            instance_domain,
            status: PeerStatus::PendingInbound,
            direction: PeerDirection::Inbound,
            request_id,
            capabilities,
            agreed_capabilities: r.agreed_capabilities,
            decision_message: r.decision_message,
            termination_reason: r.termination_reason,
        },
        None => PeerRow {
            instance_pubkey: vstd::slice::slice_to_vec(
                request.initiator_instance_pubkey.as_slice(),
            ),
            instance_domain,
            status: PeerStatus::PendingInbound,
            direction: PeerDirection::Inbound,
            request_id,
            capabilities,
            agreed_capabilities: None,
            decision_message: None,
            termination_reason: None,
        },
    }
}

/// What becomes of a request that arrives.
pub open spec fn request_verdict(body: Seq<u8>, sender: Seq<u8>, domain_taken: bool) -> Result<
    PeerRequest,
    PeerRefusal,
> {
    match peering::request_in(body) {
        None => Err(PeerRefusal::InvalidBody),
        Some(r) => if r.initiator_instance_pubkey != sender {
            Err(PeerRefusal::Unauthorized)
        } else if !domain::is_instance_domain(r.initiator_domain) {
            Err(PeerRefusal::InvalidInitiatorDomain)
        } else if domain_taken {
            Err(PeerRefusal::DomainTaken)
        } else {
            Ok(r)
        },
    }
}

/// The answer to a request that was recorded.
pub open spec fn pending_item(request_id: Seq<u8>) -> CborView {
    CborView::Dict(
        Seq::<(CborView, CborView)>::empty().push(
            peering::entry("request_id"@, CborView::Bytes(request_id)),
        ).push(peering::entry("status"@, CborView::Text("pending"@))),
    )
}

/// A request that is to be recorded.
#[derive(Debug)]
pub struct InboundRequest {
    pub request: PeerRequestBody,
    /// The proposed capabilities as they are stored.
    pub capabilities: Vec<u8>,
    /// The body of the answer.
    pub reply: Vec<u8>,
}

/// Takes a request. `domain_taken` says whether the domain that the request
/// names is on record for another key.
pub fn handle_peer_request(body: &[u8], sender: &[u8; 32], domain_taken: bool) -> (answer: Result<
    InboundRequest,
    PeerRefusal,
>)
    ensures
        match answer {
            Ok(a) => request_verdict(body@, sender@, domain_taken) == Ok::<
                PeerRequest,
                PeerRefusal,
            >(a.request@) && a.capabilities@ == stored_texts(
                a.request@.proposed_capabilities,
            ) && a.reply@ == cbor::cbor_encoding(pending_item(a.request@.request_id))
                && cbor::cbor_decoding(a.reply@) == Some(pending_item(a.request@.request_id)),
            Err(e) => request_verdict(body@, sender@, domain_taken) == Err::<
                PeerRequest,
                PeerRefusal,
            >(e),
        },
{
    let request: PeerRequestBody = match PeerRequestBody::decode(body) {
        Some(r) => r,
        None => return Err(PeerRefusal::InvalidBody),
    };
    if !same_key(&request.initiator_instance_pubkey, sender) {
        return Err(PeerRefusal::Unauthorized);
    }
    if parse_instance_domain(request.initiator_domain.as_str()).is_err() {
        return Err(PeerRefusal::InvalidInitiatorDomain);
    }
    if domain_taken {
        return Err(PeerRefusal::DomainTaken);
    }
    let capabilities: Vec<u8> = encode_text_array(request.proposed_capabilities.as_slice());
    let mut dict = DictBuilder::new();
    dict.put("request_id", cbor::bytes(&request.request_id));
    dict.put("status", cbor::text("pending"));
    proof {
        fields::lemma_plain_is_writable(dict@);
    }
    let item: Cbor = dict.finish();
    let reply: Vec<u8> = cbor::encode(&item);
    Ok(InboundRequest { request, capabilities, reply })
}

/// The answer that accepts a request, of which `stored` are the capabilities
/// on record.
pub open spec fn acceptance(
    request_id: Seq<u8>,
    own_key: Seq<u8>,
    own_domain: Seq<char>,
    ours: Seq<Seq<char>>,
    stored: Option<Seq<u8>>,
    now_ms: u64,
) -> PeerResponse {
    PeerResponse {
        request_id,
        responder_domain: own_domain,
        responder_instance_pubkey: own_key,
        decision: PeerDecision::Accept,
        agreed_capabilities: Some(common_capabilities(ours, capabilities_of(stored))),
        decision_message: None,
        created_at: now_ms,
    }
}

/// The record after this instance accepted and the other one took the answer;
/// `agreed` are the agreed capabilities in their stored form.
pub open spec fn after_accept(record: PeerRecord, agreed: Seq<u8>) -> PeerRecord {
    if record.status is PendingInbound || record.status is Active {
        PeerRecord {
            status: PeerStatus::Active,
            agreed_capabilities: Some(agreed),
            ..record
        }
    } else {
        record
    }
}

/// An acceptance that is to be sent.
#[derive(Debug)]
pub struct Acceptance {
    /// Whom it goes to.
    pub initiator: [u8; 32],
    pub response: PeerResponseBody,
    /// The agreed capabilities as they are stored once it has arrived.
    pub agreed: Vec<u8>,
}

/// Whether `accepted` is what becomes of an acceptance at a time: it goes to
/// the instance with the stored key, and fails where that is no key.
pub open spec fn is_acceptance(
    accepted: Result<Acceptance, InitiateError>,
    initiator_pubkey: Seq<u8>,
    stored_capabilities: Option<Seq<u8>>,
    own_key: Seq<u8>,
    own_domain: Seq<char>,
    ours: Seq<Seq<char>>,
    request_id: Seq<u8>,
    now_ms: u64,
) -> bool {
    match accepted {
        Ok(a) => {
            &&& initiator_pubkey.len() == 32
            &&& a.initiator@ == initiator_pubkey
            &&& a.response@ == acceptance(
                request_id,
                own_key,
                own_domain,
                ours,
                stored_capabilities,
                now_ms,
            )
            &&& a.agreed@ == stored_texts(a.response@.agreed_capabilities->Some_0)
        },
        Err(e) => initiator_pubkey.len() != 32 && e is Db,
    }
}

/// The operator accepts a request that is on record, from the instance with
/// the stored key.
pub fn operator_accept_peer_request(
    initiator_pubkey: &[u8],
    stored_capabilities: &Option<Vec<u8>>,
    own_key: &[u8; 32],
    responder_domain: &str,
    our_capabilities: &[String],
    request_id: [u8; 16],
) -> (accepted: Result<Acceptance, InitiateError>)
    ensures
        exists|now_ms: u64| #[trigger]
            is_acceptance(
                accepted,
                initiator_pubkey@,
                peering::optional_bytes(*stored_capabilities),
                own_key@,
                responder_domain@,
                fields::texts_view(our_capabilities@),
                request_id@,
                now_ms,
            ),
{
    accept_peer_request_at(
        initiator_pubkey,
        stored_capabilities,
        own_key,
        responder_domain,
        our_capabilities,
        request_id,
        now_ms(),
    )
}

/// The acceptance of a request at a time.
pub fn accept_peer_request_at(
    initiator_pubkey: &[u8],
    stored_capabilities: &Option<Vec<u8>>,
    own_key: &[u8; 32],
    responder_domain: &str,
    our_capabilities: &[String],
    request_id: [u8; 16],
    now_ms: u64,
) -> (accepted: Result<Acceptance, InitiateError>)
    ensures
        is_acceptance(
            accepted,
            initiator_pubkey@,
            peering::optional_bytes(*stored_capabilities),
            own_key@,
            responder_domain@,
            fields::texts_view(our_capabilities@),
            request_id@,
            now_ms,
        ),
{
    let initiator: [u8; 32] = match key_from_slice(initiator_pubkey) {
        Some(k) => k,
        None => return Err(InitiateError::Db),
    };
    let proposed: Vec<String> = read_capabilities(stored_capabilities);
    let common: Vec<String> = intersect_caps(our_capabilities, proposed.as_slice());
    let agreed: Vec<u8> = encode_text_array(common.as_slice());
    let response = PeerResponseBody {
        request_id,
        responder_domain: responder_domain.to_owned(),
        responder_instance_pubkey: *own_key,
        decision: PeerDecision::Accept,
        agreed_capabilities: Some(common),
        decision_message: None,
        created_at: now_ms,
    };
    Ok(Acceptance { initiator, response, agreed })
}

/// Records that the other instance took an acceptance, or tells why it did not:
/// `reply` is the status of its answer, if one came.
pub fn settle_acceptance(
    reply: Result<u16, TransportError>,
    row: PeerRow,
    accepted: &Acceptance,
) -> (settled: Result<PeerRow, InitiateError>)
    ensures
        match reply {
            Ok(200) => settled matches Ok(r) && r@ == after_accept(row@, accepted.agreed@),
            Ok(status) => settled == Err::<PeerRow, InitiateError>(
                InitiateError::UnexpectedStatus(status),
            ),
            Err(e) => settled == Err::<PeerRow, InitiateError>(InitiateError::Transport(e)),
        },
{
    let status: u16 = match reply {
        Ok(status) => status,
        Err(e) => return Err(InitiateError::Transport(e)),
    };
    if let Err(e) = callback_outcome(status) {
        return Err(e);
    }
    if !matches!(row.status, PeerStatus::PendingInbound | PeerStatus::Active) {
        return Ok(row);
    }
    let mut row: PeerRow = row;
    row.status = PeerStatus::Active;
    row.agreed_capabilities = Some(vstd::slice::slice_to_vec(accepted.agreed.as_slice()));
    Ok(row)
}

/// What changes in a record.
#[derive(Debug)]
pub enum PeerChange {
    /// The peering is active, with these capabilities in their stored form.
    Activate { agreed: Vec<u8>, message: Option<String> },
    /// The request was turned down.
    Reject { message: Option<String> },
    /// The peering is over.
    Terminate { reason: TerminationReason, message: Option<String> },
    /// Nothing.
    Keep,
}

/// What changes in a record.
pub enum ChangeView {
    Activate { agreed: Seq<u8>, message: Option<Seq<char>> },
    Reject { message: Option<Seq<char>> },
    Terminate { reason: TerminationReason, message: Option<Seq<char>> },
    Keep,
}

impl PeerChange {
    /// The change.
    pub open spec fn view(&self) -> ChangeView {
        match self {
            PeerChange::Activate { agreed, message } => ChangeView::Activate {
                agreed: agreed@,
                message: fields::optional_text(*message),
            },
            PeerChange::Reject { message } => ChangeView::Reject {
                message: fields::optional_text(*message),
            },
            PeerChange::Terminate { reason, message } => ChangeView::Terminate {
                reason: *reason,
                message: fields::optional_text(*message),
            },
            PeerChange::Keep => ChangeView::Keep,
        }
    }
}

/// The record after a change.
pub open spec fn after_change(record: PeerRecord, change: ChangeView) -> PeerRecord {
    match change {
        ChangeView::Activate { agreed, message } => PeerRecord {
            status: PeerStatus::Active,
            agreed_capabilities: Some(agreed),
            decision_message: message,
            ..record
        },
        ChangeView::Reject { message } => PeerRecord {
            status: PeerStatus::Rejected,
            decision_message: message,
            ..record
        },
        ChangeView::Terminate { reason, message } => PeerRecord {
            status: PeerStatus::Terminated,
            termination_reason: Some(reason),
            decision_message: message,
            ..record
        },
        ChangeView::Keep => record,
    }
}

/// Records a change.
pub fn record_change(row: PeerRow, change: PeerChange) -> (changed: PeerRow)
    ensures
        changed@ == after_change(row@, change@),
{
    let mut row: PeerRow = row;
    match change {
        PeerChange::Activate { agreed, message } => {
            row.status = PeerStatus::Active;
            row.agreed_capabilities = Some(agreed);
            row.decision_message = message;
        },
        PeerChange::Reject { message } => {
            row.status = PeerStatus::Rejected;
            row.decision_message = message;
        },
        PeerChange::Terminate { reason, message } => {
            row.status = PeerStatus::Terminated;
            row.termination_reason = Some(reason);
            row.decision_message = message;
        },
        PeerChange::Keep => {},
    }
    row
}

/// Whether a message of an operator is longer than what is stored of one.
pub open spec fn is_too_long(message: Option<Seq<char>>) -> bool {
    message is Some && encode_utf8(message->Some_0).len() > MAX_MESSAGE_LEN
}

fn message_too_long(message: &Option<String>) -> (yes: bool)
    ensures
        yes == is_too_long(fields::optional_text(*message)),
{
    match message {
        Some(m) => m.as_str().as_bytes().len() > MAX_MESSAGE_LEN,
        None => false,
    }
}

/// What becomes of an answer that arrives. `recorded` is the key and the
/// status of the record under the answer's request id.
pub open spec fn response_verdict(
    body: Seq<u8>,
    sender: Seq<u8>,
    recorded: Option<(Seq<u8>, PeerStatus)>,
) -> Result<ChangeView, PeerRefusal> {
    match peering::response_in(body) {
        None => Err(PeerRefusal::InvalidBody),
        Some(r) => if is_too_long(r.decision_message) {
            Err(PeerRefusal::InvalidBody)
        } else if r.responder_instance_pubkey != sender {
            Err(PeerRefusal::Unauthorized)
        } else {
            match recorded {
                None => Err(PeerRefusal::UnknownRequest),
                Some((key, status)) => if !(status is PendingOutbound || status is Active) {
                    Err(PeerRefusal::UnknownRequest)
                } else if key.len() != 32 {
                    Err(PeerRefusal::Internal)
                } else if key != r.responder_instance_pubkey {
                    Err(PeerRefusal::Unauthorized)
                } else {
                    match r.decision {
                        PeerDecision::Accept => Ok(
                            ChangeView::Activate {
                                agreed: stored_texts(
                                    match r.agreed_capabilities {
                                        Some(l) => l,
                                        None => Seq::empty(),
                                    },
                                ),
                                message: r.decision_message,
                            },
                        ),
                        PeerDecision::Reject => if status is PendingOutbound {
                            Ok(ChangeView::Reject { message: r.decision_message })
                        } else {
                            Ok(ChangeView::Keep)
                        },
                    }
                },
            }
        },
    }
}

/// The key and the status of a record.
#[derive(Debug)]
pub struct RecordedPeer {
    pub instance_pubkey: Vec<u8>,
    pub status: PeerStatus,
}

/// What a record that was looked up holds.
pub open spec fn recorded_view(recorded: Option<RecordedPeer>) -> Option<(Seq<u8>, PeerStatus)> {
    match recorded {
        Some(r) => Some((r.instance_pubkey@, r.status)),
        None => None,
    }
}

/// Takes an answer to a request of this instance. `recorded` is the record
/// under the answer's request id, where there is one that is still pending or
/// already active.
pub fn handle_peer_response(body: &[u8], sender: &[u8; 32], recorded: &Option<RecordedPeer>) -> (
answer: Result<PeerChange, PeerRefusal>)
    ensures
        match answer {
            Ok(change) => response_verdict(body@, sender@, recorded_view(*recorded)) == Ok::<
                ChangeView,
                PeerRefusal,
            >(change@),
            Err(e) => response_verdict(body@, sender@, recorded_view(*recorded)) == Err::<
                ChangeView,
                PeerRefusal,
            >(e),
        },
{
    let response: PeerResponseBody = match PeerResponseBody::decode(body) {
        Some(r) => r,
        None => return Err(PeerRefusal::InvalidBody),
    };
    if message_too_long(&response.decision_message) {
        return Err(PeerRefusal::InvalidBody);
    }
    if !same_key(&response.responder_instance_pubkey, sender) {
        return Err(PeerRefusal::Unauthorized);
    }
    let record: &RecordedPeer = match recorded {
        Some(r) => r,
        None => return Err(PeerRefusal::UnknownRequest),
    };
    let pending: bool = matches!(record.status, PeerStatus::PendingOutbound);
    if !pending && !matches!(record.status, PeerStatus::Active) {
        return Err(PeerRefusal::UnknownRequest);
    }
    let key: [u8; 32] = match key_from_slice(record.instance_pubkey.as_slice()) {
        Some(k) => k,
        None => return Err(PeerRefusal::Internal),
    };
    if !same_key(&key, &response.responder_instance_pubkey) {
        return Err(PeerRefusal::Unauthorized);
    }
    match response.decision {
        PeerDecision::Accept => {
            let agreed: Vec<u8> = match &response.agreed_capabilities {
                Some(l) => encode_text_array(l.as_slice()),
                None => {
                    let none: Vec<String> = Vec::new();
                    assert(fields::texts_view(none@) =~= Seq::<Seq<char>>::empty());
                    encode_text_array(none.as_slice())
                },
            };
            Ok(PeerChange::Activate { agreed, message: response.decision_message })
        },
        PeerDecision::Reject => if pending {
            Ok(PeerChange::Reject { message: response.decision_message })
        } else {
            Ok(PeerChange::Keep)
        },
    }
}

/// What becomes of a termination that arrives. `known` is the domain and the
/// status of the sender's record. One that ended the peering before is taken
/// again, and changes nothing.
pub open spec fn termination_verdict(
    body: Seq<u8>,
    known: Option<(Seq<char>, PeerStatus)>,
) -> Result<ChangeView, PeerRefusal> {
    match peering::termination_in(body) {
        None => Err(PeerRefusal::InvalidBody),
        Some(t) => if encode_utf8(t.terminator_domain).len() > MAX_DOMAIN_LEN || is_too_long(
            t.message,
        ) {
            Err(PeerRefusal::InvalidBody)
        } else {
            match known {
                None => Err(PeerRefusal::Unauthorized),
                Some((domain, status)) => if !(status is Active || status is Terminated) {
                    Err(PeerRefusal::Unauthorized)
                } else if t.terminator_domain != domain {
                    Err(PeerRefusal::InvalidBody)
                } else if status is Active {
                    Ok(ChangeView::Terminate { reason: t.reason, message: t.message })
                } else {
                    Ok(ChangeView::Keep)
                },
            }
        },
    }
}

/// The domain and the status of a record.
#[derive(Debug)]
pub struct KnownPeer {
    pub instance_domain: String,
    pub status: PeerStatus,
}

/// What a sender's record holds.
pub open spec fn known_view(known: Option<KnownPeer>) -> Option<(Seq<char>, PeerStatus)> {
    match known {
        Some(k) => Some((k.instance_domain@, k.status)),
        None => None,
    }
}

/// Takes a termination. `known` is the sender's record.
pub fn handle_peer_relationship_delete(body: &[u8], known: &Option<KnownPeer>) -> (
answer: Result<PeerChange, PeerRefusal>)
    ensures
        match answer {
            Ok(change) => termination_verdict(body@, known_view(*known)) == Ok::<
                ChangeView,
                PeerRefusal,
            >(change@),
            Err(e) => termination_verdict(body@, known_view(*known)) == Err::<
                ChangeView,
                PeerRefusal,
            >(e),
        },
{
    let termination: PeerRelationshipDeleteBody = match PeerRelationshipDeleteBody::decode(body) {
        Some(t) => t,
        None => return Err(PeerRefusal::InvalidBody),
    };
    if termination.terminator_domain.as_str().as_bytes().len() > MAX_DOMAIN_LEN {
        return Err(PeerRefusal::InvalidBody);
    }
    if message_too_long(&termination.message) {
        return Err(PeerRefusal::InvalidBody);
    }
    let peer: &KnownPeer = match known {
        Some(k) => k,
        None => return Err(PeerRefusal::Unauthorized),
    };
    let active: bool = matches!(peer.status, PeerStatus::Active);
    if !active && !matches!(peer.status, PeerStatus::Terminated) {
        return Err(PeerRefusal::Unauthorized);
    }
    if !same_text(termination.terminator_domain.as_str(), peer.instance_domain.as_str()) {
        return Err(PeerRefusal::InvalidBody);
    }
    if active {
        Ok(PeerChange::Terminate { reason: termination.reason, message: termination.message })
    } else {
        Ok(PeerChange::Keep)
    }
}

/// Whether an instance may call what is kept for peers: an active peer may,
/// and one whose peering is over may still say so again.
pub open spec fn is_admitted(status: Option<PeerStatus>, ends_peering: bool) -> bool {
    status == Some(PeerStatus::Active) || (ends_peering && status == Some(PeerStatus::Terminated))
}

/// Decides whether an instance may call what is kept for peers. `status` is
/// what is on record of it, and `ends_peering` says whether the call is the one
/// that ends a peering.
pub fn peer_is_admitted(status: Option<PeerStatus>, ends_peering: bool) -> (yes: bool)
    ensures
        yes == is_admitted(status, ends_peering),
{
    match status {
        Some(PeerStatus::Active) => true,
        Some(PeerStatus::Terminated) => ends_peering,
        _ => false,
    }
}

/// The operator ends a peering: the body that tells the peer.
pub fn operator_terminate_peer_relationship(
    terminator_domain: &str,
    reason: TerminationReason,
    message: Option<String>,
) -> (body: PeerRelationshipDeleteBody)
    ensures
        body.terminator_domain@ == terminator_domain@,
        body.reason == reason,
        body.message == message,
{
    terminate_peer_relationship_at(terminator_domain, reason, message, now_ms())
}

/// The body that tells a peer of the end of a peering at a time.
pub fn terminate_peer_relationship_at(
    terminator_domain: &str,
    reason: TerminationReason,
    message: Option<String>,
    now_ms: u64,
) -> (body: PeerRelationshipDeleteBody)
    ensures
        body.terminator_domain@ == terminator_domain@,
        body.reason == reason,
        body.message == message,
        body.created_at == now_ms,
{
    PeerRelationshipDeleteBody {
        terminator_domain: terminator_domain.to_owned(),
        reason,
        message,
        created_at: now_ms,
    }
}

/// What changes in this instance's own record once the peer took a
/// termination: a peering that is active is over, for the reason and with the
/// message that the peer was told.
pub open spec fn own_termination(
    status: PeerStatus,
    reason: TerminationReason,
    message: Option<Seq<char>>,
) -> ChangeView {
    if status is Active {
        ChangeView::Terminate { reason, message }
    } else {
        ChangeView::Keep
    }
}

/// Takes the peer's answer to a termination, or tells why the peering stays:
/// `reply` is the status of the answer, if one came, and `status` the one of
/// this instance's record.
pub fn settle_termination(
    reply: Result<u16, TransportError>,
    status: PeerStatus,
    told: PeerRelationshipDeleteBody,
) -> (settled: Result<PeerChange, InitiateError>)
    ensures
        match reply {
            Ok(200) => settled matches Ok(change) && change@ == own_termination(
                status,
                told.reason,
                fields::optional_text(told.message),
            ),
            Ok(answer) => settled == Err::<PeerChange, InitiateError>(
                InitiateError::UnexpectedStatus(answer),
            ),
            Err(e) => settled == Err::<PeerChange, InitiateError>(InitiateError::Transport(e)),
        },
{
    let answer: u16 = match reply {
        Ok(answer) => answer,
        Err(e) => return Err(InitiateError::Transport(e)),
    };
    if let Err(e) = callback_outcome(answer) {
        return Err(e);
    }
    if matches!(status, PeerStatus::Active) {
        Ok(PeerChange::Terminate { reason: told.reason, message: told.message })
    } else {
        Ok(PeerChange::Keep)
    }
}

/// An active peer, as the list of peers tells of it.
#[derive(Debug)]
pub struct ActivePeer {
    pub instance_pubkey: Vec<u8>,
    pub instance_domain: String,
    pub first_seen: String,
    /// The agreed capabilities in their stored form, or else the proposed ones.
    pub capabilities: Option<Vec<u8>>,
}

/// When a peer was first seen, in Unix milliseconds: 0 where the record does
/// not tell.
pub open spec fn since_of(first_seen: Seq<char>) -> u64 {
    match timestamp::unix_ms_of(first_seen) {
        Some(ms) => ms,
        None => 0,
    }
}

/// One peer in the list of peers.
pub open spec fn peer_item(p: ActivePeer) -> CborView {
    CborView::Dict(
        Seq::<(CborView, CborView)>::empty().push(
            peering::entry("domain"@, CborView::Text(p.instance_domain@)),
        ).push(peering::entry("instance_pubkey"@, CborView::Bytes(p.instance_pubkey@))).push(
            peering::entry("since"@, CborView::Integer(since_of(p.first_seen@) as int)),
        ).push(
            peering::entry(
                "capabilities"@,
                fields::texts_item(capabilities_of(peering::optional_bytes(p.capabilities))),
            ),
        ),
    )
}

/// The list of peers.
pub open spec fn peers_item(peers: Seq<ActivePeer>) -> CborView {
    CborView::Dict(
        Seq::<(CborView, CborView)>::empty().push(
            peering::entry(
                "peers"@,
                CborView::Array(Seq::new(peers.len(), |i: int| peer_item(peers[i]))),
            ),
        ),
    )
}

proof fn lemma_peer_item_writable(p: ActivePeer)
    ensures
        cbor::writable(peer_item(p), 254),
{
    fields::law_texts_read_back(capabilities_of(peering::optional_bytes(p.capabilities)));
    reveal_with_fuel(cbor::writable, 4);
}

fn encode_peer(p: &ActivePeer) -> (item: Cbor)
    ensures
        item@ == peer_item(*p),
{
    let since: u64 = match iso8601_to_unix_ms(p.first_seen.as_str()) {
        Some(ms) => ms,
        None => 0,
    };
    let capabilities: Vec<String> = read_capabilities(&p.capabilities);
    let mut dict = DictBuilder::new();
    dict.put("domain", cbor::text(p.instance_domain.as_str()));
    dict.put("instance_pubkey", cbor::bytes(p.instance_pubkey.as_slice()));
    dict.put("since", cbor::uint(since));
    dict.put("capabilities", texts(capabilities.as_slice()));
    dict.finish()
}

/// The list of active peers on the wire.
pub fn handle_peers_list(peers: &Vec<ActivePeer>) -> (bytes: Vec<u8>)
    ensures
        bytes@ == cbor::cbor_encoding(peers_item(peers@)),
        cbor::cbor_decoding(bytes@) == Some(peers_item(peers@)),
{
    let mut items = ArrayBuilder::new();
    let mut i: usize = 0;
    while i < peers.len()
        invariant
            i <= peers.len(),
            items@.len() == i,
            forall|j: int| 0 <= j < i ==> #[trigger] items@[j] == peer_item(peers@[j]),
        decreases peers.len() - i,
    {
        items.put(encode_peer(&peers[i]));
        i += 1;
    }
    let ghost list = items@;
    let mut dict = DictBuilder::new();
    dict.put("peers", items.finish());
    proof {
        assert(list =~= Seq::new(peers@.len(), |i: int| peer_item(peers@[i])));
        assert forall|i: int| 0 <= i < list.len() implies cbor::writable(
            #[trigger] list[i],
            254,
        ) by {
            lemma_peer_item_writable(peers@[i]);
        }
        assert(dict@[0] == peering::entry("peers"@, CborView::Array(list)));
        reveal_with_fuel(cbor::writable, 3);
        assert(cbor::writable(CborView::Dict(dict@), 256));
    }
    let item: Cbor = dict.finish();
    cbor::encode(&item)
}

/// An accepted answer that is delivered twice changes the record once: the
/// second delivery succeeds too, and leaves the record as it is.
pub proof fn law_retried_acceptance_changes_nothing(
    body: Seq<u8>,
    sender: Seq<u8>,
    record: PeerRecord,
)
    requires
        response_verdict(body, sender, Some((record.instance_pubkey, record.status))) is Ok,
        response_verdict(
            body,
            sender,
            Some((record.instance_pubkey, record.status)),
        )->Ok_0 is Activate,
    ensures
        ({
            let first = response_verdict(
                body,
                sender,
                Some((record.instance_pubkey, record.status)),
            )->Ok_0;
            let once = after_change(record, first);
            let second = response_verdict(body, sender, Some((once.instance_pubkey, once.status)));
            second is Ok && after_change(once, second->Ok_0) == once
        }),
{
}

/// Only the instance that was asked answers a request, and it signs for the
/// key that it names.
pub proof fn law_only_the_asked_instance_answers(
    body: Seq<u8>,
    sender: Seq<u8>,
    record: PeerRecord,
)
    ensures
        response_verdict(body, sender, Some((record.instance_pubkey, record.status))) is Ok
            ==> sender == record.instance_pubkey && (record.status is PendingOutbound
            || record.status is Active),
{
}

/// A late refusal does not end a peering that is active.
pub proof fn law_active_peering_survives_a_refusal(
    body: Seq<u8>,
    sender: Seq<u8>,
    record: PeerRecord,
)
    requires
        record.status is Active,
        response_verdict(body, sender, Some((record.instance_pubkey, record.status))) is Ok,
    ensures
        after_change(
            record,
            response_verdict(
                body,
                sender,
                Some((record.instance_pubkey, record.status)),
            )->Ok_0,
        ).status is Active,
{
}

/// A handshake ends with both sides active and of one mind on what they
/// agreed: what the responder has of what the initiator proposed.
pub proof fn law_handshake_agrees(
    initiator_earlier: Option<PeerRecord>,
    responder_earlier: Option<PeerRecord>,
    target_domain: Seq<char>,
    request: PeerRequest,
    request_body: Seq<u8>,
    responder_key: Seq<u8>,
    responder_domain: Seq<char>,
    responder_capabilities: Seq<Seq<char>>,
    now_ms: u64,
    response_body: Seq<u8>,
)
    requires
        peering::is_request(request),
        domain::is_instance_domain(request.initiator_domain),
        responder_key.len() == 32,
        initiator_earlier matches Some(r) ==> r.instance_pubkey == responder_key,
        peering::request_in(request_body) == Some(request),
        texts_stored(stored_texts(request.proposed_capabilities)) == Some(
            request.proposed_capabilities,
        ),
        peering::response_in(response_body) == Some(
            acceptance(
                request.request_id,
                responder_key,
                responder_domain,
                responder_capabilities,
                Some(stored_texts(request.proposed_capabilities)),
                now_ms,
            ),
        ),
    ensures
        ({
            let asked = after_initiate(initiator_earlier, responder_key, target_domain, request);
            let taken = request_verdict(
                request_body,
                request.initiator_instance_pubkey,
                false,
            );
            let pending = after_request(responder_earlier, taken->Ok_0);
            let agreed = common_capabilities(
                responder_capabilities,
                request.proposed_capabilities,
            );
            let accepted = after_accept(pending, stored_texts(agreed));
            let heard = response_verdict(
                response_body,
                responder_key,
                Some((asked.instance_pubkey, asked.status)),
            );
            let done = after_change(asked, heard->Ok_0);
            &&& taken is Ok
            &&& heard is Ok
            &&& accepted.status is Active
            &&& done.status is Active
            &&& accepted.agreed_capabilities == Some(stored_texts(agreed))
            &&& done.agreed_capabilities == Some(stored_texts(agreed))
            &&& accepted.request_id == done.request_id
        }),
{
}

/// Only a peer's own word, or the operator's, ends its peering: a termination
/// is taken from a sender with a record that is or was active, under the
/// domain on record.
pub proof fn law_terminations_name_the_domain_on_record(
    body: Seq<u8>,
    known: Option<(Seq<char>, PeerStatus)>,
)
    ensures
        termination_verdict(body, known) is Ok ==> known is Some && (known->Some_0.1 is Active
            || known->Some_0.1 is Terminated) && peering::termination_in(body) is Some
            && peering::termination_in(body)->Some_0.terminator_domain == known->Some_0.0,
{
}

/// A termination that is delivered twice ends the peering once: the second
/// delivery succeeds too, and leaves the record as it is.
pub proof fn law_retried_termination_changes_nothing(body: Seq<u8>, record: PeerRecord)
    requires
        termination_verdict(body, Some((record.instance_domain, record.status))) is Ok,
    ensures
        ({
            let first = termination_verdict(
                body,
                Some((record.instance_domain, record.status)),
            )->Ok_0;
            let once = after_change(record, first);
            let second = termination_verdict(body, Some((once.instance_domain, once.status)));
            &&& once.status is Terminated
            &&& is_admitted(Some(record.status), true)
            &&& is_admitted(Some(once.status), true)
            &&& second == Ok::<ChangeView, PeerRefusal>(ChangeView::Keep)
        }),
{
}

/// A termination is recorded alike on both sides: each record says why and
/// with what message the peering ended.
pub proof fn law_both_sides_record_a_termination(
    own: PeerRecord,
    other: PeerRecord,
    told: peering::PeerTermination,
    body: Seq<u8>,
)
    requires
        own.status is Active,
        other.status is Active,
        peering::termination_in(body) == Some(told),
        termination_verdict(body, Some((other.instance_domain, other.status))) is Ok,
    ensures
        ({
            let here = after_change(own, own_termination(own.status, told.reason, told.message));
            let there = after_change(
                other,
                termination_verdict(body, Some((other.instance_domain, other.status)))->Ok_0,
            );
            &&& here.status is Terminated && there.status is Terminated
            &&& here.termination_reason == there.termination_reason
            &&& here.termination_reason == Some(told.reason)
            &&& here.decision_message == there.decision_message
            &&& here.decision_message == told.message
        }),
{
}

/// A request is taken exactly where the instance that it names sent it, the
/// domain that it names is one, and no other key has that domain; it is then
/// answered as pending, under its own id. Any other one is refused for the
/// first of these that fails.
pub proof fn law_requests_are_taken_from_their_sender(
    body: &[u8],
    sender: &[u8; 32],
    domain_taken: bool,
    answer: Result<InboundRequest, PeerRefusal>,
)
    requires
        call_ensures(handle_peer_request, (body, sender, domain_taken), answer),
    ensures
        peering::request_in(body@) is None ==> answer is Err && answer->Err_0 is InvalidBody,
        peering::request_in(body@) matches Some(r) ==> {
            let own = r.initiator_instance_pubkey == sender@;
            let sound = domain::is_instance_domain(r.initiator_domain);
            &&& answer is Ok <==> own && sound && !domain_taken
            &&& answer matches Ok(a) ==> a.request@ == r && texts_stored(a.capabilities@)
                == texts_stored(stored_texts(r.proposed_capabilities)) && (cbor::cbor_decoding(
                a.reply@,
            ) matches Some(CborView::Dict(e)) && e.len() == 2 && e[0] == (
                CborView::Text("request_id"@),
                CborView::Bytes(r.request_id),
            ) && e[1] == (CborView::Text("status"@), CborView::Text("pending"@)))
            &&& !own ==> answer is Err && answer->Err_0 is Unauthorized
            &&& own && !sound ==> answer is Err && answer->Err_0 is InvalidInitiatorDomain
            &&& own && sound && domain_taken ==> answer is Err && answer->Err_0 is DomainTaken
        },
{
}

/// A request that came in makes the record of its sender a pending one, under
/// the id and the domain of the request; what was agreed, said and ended
/// before stays on record.
pub proof fn law_a_request_makes_a_pending_record(
    earlier: Option<PeerRow>,
    request: &PeerRequestBody,
    row: PeerRow,
)
    requires
        call_ensures(record_request, (earlier, request), row),
    ensures
        row.status is PendingInbound && row.direction is Inbound,
        row.request_id@ == request.request_id@,
        row.instance_domain@ == request.initiator_domain@,
        row.capabilities@ == stored_texts(fields::texts_view(request.proposed_capabilities@)),
        earlier matches Some(e) ==> row.instance_pubkey@ == e.instance_pubkey@
            && peering::optional_bytes(row.agreed_capabilities) == peering::optional_bytes(
            e.agreed_capabilities,
        ) && fields::optional_text(row.decision_message) == fields::optional_text(
            e.decision_message,
        ) && row.termination_reason == e.termination_reason,
        earlier is None ==> row.instance_pubkey@ == request.initiator_instance_pubkey@
            && row.agreed_capabilities is None && row.decision_message is None
            && row.termination_reason is None,
{
    assert(row@.instance_pubkey == row.instance_pubkey@);
    assert(row@.agreed_capabilities == peering::optional_bytes(row.agreed_capabilities));
    assert(row@.decision_message == fields::optional_text(row.decision_message));
}

/// A request that goes out makes the record of its target a pending one, under
/// the id of the request; a domain that is on record stays.
pub proof fn law_an_own_request_makes_a_pending_record(
    earlier: Option<PeerRow>,
    target_pubkey: &[u8; 32],
    target_domain: &str,
    request: &PeerRequestBody,
    row: PeerRow,
)
    requires
        call_ensures(record_initiation, (earlier, target_pubkey, target_domain, request), row),
    ensures
        row.status is PendingOutbound && row.direction is Outbound,
        row.request_id@ == request.request_id@,
        row.capabilities@ == stored_texts(fields::texts_view(request.proposed_capabilities@)),
        earlier matches Some(e) ==> row.instance_pubkey@ == e.instance_pubkey@
            && row.instance_domain@ == e.instance_domain@ && peering::optional_bytes(
            row.agreed_capabilities,
        ) == peering::optional_bytes(e.agreed_capabilities) && fields::optional_text(
            row.decision_message,
        ) == fields::optional_text(e.decision_message) && row.termination_reason
            == e.termination_reason,
        earlier is None ==> row.instance_pubkey@ == target_pubkey@ && row.instance_domain@
            == target_domain@ && row.agreed_capabilities is None && row.decision_message is None
            && row.termination_reason is None,
{
    assert(row@.instance_pubkey == row.instance_pubkey@);
    assert(row@.agreed_capabilities == peering::optional_bytes(row.agreed_capabilities));
    assert(row@.decision_message == fields::optional_text(row.decision_message));
}

/// The operator's request goes out exactly where the target is another
/// instance, its domain is one and no other key has that domain; it names this
/// instance, and what it was given.
pub proof fn law_the_operator_may_ask_any_other_instance(
    own_key: &[u8; 32],
    initiator_domain: &str,
    target_pubkey: &[u8; 32],
    target_domain: &str,
    domain_taken: bool,
    proposed_capabilities: Vec<String>,
    introduction: Option<String>,
    request_id: [u8; 16],
    now_ms: u64,
    request: Result<PeerRequestBody, InitiateError>,
)
    requires
        call_ensures(
            initiate_peer_request_at,
            (
                own_key,
                initiator_domain,
                target_pubkey,
                target_domain,
                domain_taken,
                proposed_capabilities,
                introduction,
                request_id,
                now_ms,
            ),
            request,
        ),
    ensures
        ({
            let other = own_key@ != target_pubkey@;
            let sound = domain::is_instance_domain(target_domain@);
            &&& request is Ok <==> other && sound && !domain_taken
            &&& request matches Ok(r) ==> r.initiator_domain@ == initiator_domain@
                && r.initiator_instance_pubkey@ == own_key@ && r.request_id@ == request_id@
                && r.created_at == now_ms && fields::texts_view(r.proposed_capabilities@)
                == fields::texts_view(proposed_capabilities@) && fields::optional_text(
                r.introduction,
            ) == fields::optional_text(introduction)
            &&& !other ==> request->Err_0 is SelfPeering
            &&& other && !sound ==> request->Err_0 is InvalidTargetDomain
            &&& other && sound && domain_taken ==> request->Err_0 is DomainConflict
        }),
{
    if let Ok(r) = request {
        assert(r@.initiator_domain == r.initiator_domain@);
        assert(r@.request_id == r.request_id@);
    }
}

/// What is agreed is what both sides have: a capability is in it exactly where
/// it is on both lists.
pub proof fn law_both_sides_have_what_is_agreed(
    ours: &[String],
    proposed: &[String],
    common: Vec<String>,
    c: Seq<char>,
)
    requires
        call_ensures(intersect_caps, (ours, proposed), common),
    ensures
        fields::texts_view(common@).contains(c) <==> fields::texts_view(ours@).contains(c)
            && fields::texts_view(proposed@).contains(c),
{
    let all = fields::texts_view(ours@);
    let both = |c: Seq<char>| fields::texts_view(proposed@).contains(c);
    let kept = all.filter(both);
    assert(fields::texts_view(common@) == kept);
    if kept.contains(c) {
        all.lemma_filter_contains_rev(both, c);
        let i = choose|i: int| 0 <= i < kept.len() && kept[i] == c;
        all.lemma_filter_pred(both, i);
    }
    if all.contains(c) && fields::texts_view(proposed@).contains(c) {
        let i = choose|i: int| 0 <= i < all.len() && all[i] == c;
        all.lemma_filter_contains(both, i);
    }
}

/// What is agreed is in the order of our own list: a capability at the end of
/// it comes last, where the other side has it, and changes nothing where it
/// has not.
pub proof fn law_what_is_agreed_is_in_our_order(
    ours: &[String],
    proposed: &[String],
    common: Vec<String>,
    more: &[String],
    with_more: Vec<String>,
    c: String,
)
    requires
        call_ensures(intersect_caps, (ours, proposed), common),
        call_ensures(intersect_caps, (more, proposed), with_more),
        more@ == ours@.push(c),
    ensures
        fields::texts_view(with_more@) == if fields::texts_view(proposed@).contains(c@) {
            fields::texts_view(common@).push(c@)
        } else {
            fields::texts_view(common@)
        },
{
    let all = fields::texts_view(more@);
    assert(all.drop_last() =~= fields::texts_view(ours@));
    assert(all.last() == c@);
    reveal(Seq::filter);
}

/// An acceptance goes to the instance that asked, under the id of its request,
/// and agrees on what both sides have of what is on record of the request. It
/// cannot be made where the key on record is none.
pub proof fn law_acceptances_go_to_who_asked(
    initiator_pubkey: &[u8],
    stored_capabilities: &Option<Vec<u8>>,
    own_key: &[u8; 32],
    responder_domain: &str,
    our_capabilities: &[String],
    request_id: [u8; 16],
    now_ms: u64,
    accepted: Result<Acceptance, InitiateError>,
)
    requires
        call_ensures(
            accept_peer_request_at,
            (
                initiator_pubkey,
                stored_capabilities,
                own_key,
                responder_domain,
                our_capabilities,
                request_id,
                now_ms,
            ),
            accepted,
        ),
    ensures
        accepted is Ok <==> initiator_pubkey@.len() == 32,
        accepted matches Ok(a) ==> {
            let listed = fields::optional_texts(a.response.agreed_capabilities);
            &&& a.initiator@ == initiator_pubkey@
            &&& a.response.request_id@ == request_id@
            &&& a.response.responder_domain@ == responder_domain@
            &&& a.response.responder_instance_pubkey@ == own_key@
            &&& a.response.decision is Accept
            &&& a.response.decision_message is None
            &&& a.response.created_at == now_ms
            &&& listed is Some
            &&& a.agreed@ == stored_texts(listed->Some_0)
            &&& *stored_capabilities matches Some(b) ==> (texts_stored(b@) matches Some(proposed)
                ==> forall|c: Seq<char>| #[trigger]
                listed->Some_0.contains(c) <==> fields::texts_view(our_capabilities@).contains(c)
                    && proposed.contains(c))
        },
{
    if let Ok(a) = accepted {
        assert(a.response@.request_id == a.response.request_id@);
        assert(a.response@.decision_message == fields::optional_text(a.response.decision_message));
        let ours = fields::texts_view(our_capabilities@);
        if let Some(b) = *stored_capabilities {
            if let Some(proposed) = texts_stored(b@) {
                let both = |c: Seq<char>| proposed.contains(c);
                let kept = ours.filter(both);
                assert(capabilities_of(peering::optional_bytes(*stored_capabilities)) == proposed);
                assert(kept == a.response@.agreed_capabilities->Some_0);
                assert forall|c: Seq<char>| #[trigger] kept.contains(c) <==> ours.contains(c)
                    && proposed.contains(c) by {
                    if kept.contains(c) {
                        ours.lemma_filter_contains_rev(both, c);
                        let i = choose|i: int| 0 <= i < kept.len() && kept[i] == c;
                        ours.lemma_filter_pred(both, i);
                    }
                    if ours.contains(c) && proposed.contains(c) {
                        let i = choose|i: int| 0 <= i < ours.len() && ours[i] == c;
                        ours.lemma_filter_contains(both, i);
                    }
                }
            }
        }
    }
}

/// A request that this instance accepted is an active peering as soon as the
/// other one took the answer, which it says with 200, and stays one where the
/// answer is taken again. A record that is neither pending nor active stays as
/// it is.
pub proof fn law_taken_acceptances_are_recorded(
    reply: Result<u16, TransportError>,
    row: PeerRow,
    accepted: &Acceptance,
    settled: Result<PeerRow, InitiateError>,
)
    requires
        call_ensures(settle_acceptance, (reply, row, accepted), settled),
    ensures
        settled is Ok <==> reply == Ok::<u16, TransportError>(200u16),
        settled matches Ok(r) ==> {
            let waits = row.status is PendingInbound || row.status is Active;
            &&& r.instance_pubkey@ == row.instance_pubkey@
            &&& r.request_id@ == row.request_id@
            &&& r.instance_domain@ == row.instance_domain@
            &&& waits ==> r.status is Active && (r.agreed_capabilities matches Some(l) && l@
                == accepted.agreed@)
            &&& !waits ==> r.status == row.status && peering::optional_bytes(r.agreed_capabilities)
                == peering::optional_bytes(row.agreed_capabilities)
        },
        reply matches Err(e) ==> settled->Err_0 == InitiateError::Transport(e),
        reply matches Ok(c) ==> c != 200 ==> settled->Err_0 == InitiateError::UnexpectedStatus(c),
{
    if let Ok(r) = settled {
        assert(r@.instance_pubkey == r.instance_pubkey@);
        assert(r@.request_id == r.request_id@);
        assert(r@.agreed_capabilities == peering::optional_bytes(r.agreed_capabilities));
    }
}

/// An answer of the instance that was asked is taken as long as the request
/// waits for it: an acceptance makes the peering active, with what the answer
/// agrees on, and a refusal turns the request down. In an active peering an
/// acceptance is taken too, and a refusal changes nothing.
pub proof fn law_answers_of_the_asked_instance_are_taken(
    body: &[u8],
    sender: &[u8; 32],
    recorded: &Option<RecordedPeer>,
    answer: Result<PeerChange, PeerRefusal>,
    r: PeerResponse,
    row: PeerRow,
    changed: PeerRow,
)
    requires
        call_ensures(handle_peer_response, (body, sender, recorded), answer),
        peering::response_in(body@) == Some(r),
        r.decision_message matches Some(m) ==> encode_utf8(m).len() <= 4096,
        r.responder_instance_pubkey == sender@,
        *recorded matches Some(p) && p.instance_pubkey@ == sender@ && p.status == row.status && (
        p.status is PendingOutbound || p.status is Active),
        answer matches Ok(change) ==> call_ensures(record_change, (row, change), changed),
    ensures
        answer is Ok,
        r.decision is Accept ==> changed.status is Active && fields::optional_text(
            changed.decision_message,
        ) == r.decision_message && (changed.agreed_capabilities matches Some(l) && (
        r.agreed_capabilities matches Some(agreed) ==> l@ == stored_texts(agreed))),
        r.decision is Reject ==> peering::optional_bytes(changed.agreed_capabilities)
            == peering::optional_bytes(row.agreed_capabilities),
        r.decision is Reject && row.status is PendingOutbound ==> changed.status is Rejected
            && fields::optional_text(changed.decision_message) == r.decision_message,
        r.decision is Reject && row.status is Active ==> changed@ == row@,
        changed.instance_pubkey@ == row.instance_pubkey@,
        changed.instance_domain@ == row.instance_domain@,
        changed.request_id@ == row.request_id@,
{
    assert(changed@.instance_pubkey == changed.instance_pubkey@);
    assert(changed@.instance_domain == changed.instance_domain@);
    assert(changed@.request_id == changed.request_id@);
    assert(changed@.agreed_capabilities == peering::optional_bytes(changed.agreed_capabilities));
    assert(changed@.decision_message == fields::optional_text(changed.decision_message));
}

/// Any other answer is refused, for the first thing that is wrong with it.
pub proof fn law_other_answers_are_refused(
    body: &[u8],
    sender: &[u8; 32],
    recorded: &Option<RecordedPeer>,
    answer: Result<PeerChange, PeerRefusal>,
)
    requires
        call_ensures(handle_peer_response, (body, sender, recorded), answer),
    ensures
        peering::response_in(body@) is None ==> answer is Err && answer->Err_0 is InvalidBody,
        peering::response_in(body@) matches Some(r) ==> {
            let long = r.decision_message matches Some(m) && encode_utf8(m).len() > 4096;
            let own = r.responder_instance_pubkey == sender@;
            let known = *recorded matches Some(p) && (p.status is PendingOutbound
                || p.status is Active);
            &&& long ==> answer is Err && answer->Err_0 is InvalidBody
            &&& !long && !own ==> answer is Err && answer->Err_0 is Unauthorized
            &&& !long && own && !known ==> answer is Err && answer->Err_0 is UnknownRequest
            &&& !long && own && known ==> {
                let key = recorded->Some_0.instance_pubkey@;
                &&& key.len() != 32 ==> answer is Err && answer->Err_0 is Internal
                &&& key.len() == 32 && key != sender@ ==> answer is Err && answer->Err_0
                    is Unauthorized
                &&& key == sender@ ==> answer is Ok
            }
        },
{
    assert(sender@.len() == 32);
}

/// A peer with an active record ends the peering with any termination under
/// its domain on record: the record then tells why, and with what message.
/// One that ended before is taken again, and changes nothing; any other one is
/// refused.
pub proof fn law_peers_end_their_peerings(
    body: &[u8],
    known: &Option<KnownPeer>,
    answer: Result<PeerChange, PeerRefusal>,
    row: PeerRow,
    changed: PeerRow,
)
    requires
        call_ensures(handle_peer_relationship_delete, (body, known), answer),
        *known matches Some(k) ==> k.status == row.status,
        answer matches Ok(change) ==> call_ensures(record_change, (row, change), changed),
    ensures
        peering::termination_in(body@) is None ==> answer is Err && answer->Err_0 is InvalidBody,
        peering::termination_in(body@) matches Some(t) ==> {
            let long = encode_utf8(t.terminator_domain).len() > 255 || (t.message matches Some(m)
                && encode_utf8(m).len() > 4096);
            let peer = *known matches Some(k) && (k.status is Active || k.status is Terminated);
            &&& long ==> answer is Err && answer->Err_0 is InvalidBody
            &&& !long && !peer ==> answer is Err && answer->Err_0 is Unauthorized
            &&& !long && peer ==> {
                let same = known->Some_0.instance_domain@ == t.terminator_domain;
                &&& answer is Ok <==> same
                &&& !same ==> answer->Err_0 is InvalidBody
                &&& same && row.status is Active ==> changed.status is Terminated
                    && changed.termination_reason == Some(t.reason) && fields::optional_text(
                    changed.decision_message,
                ) == t.message
                &&& same && row.status is Terminated ==> changed@ == row@
            }
        },
{
    assert(changed@.termination_reason == changed.termination_reason);
    assert(changed@.decision_message == fields::optional_text(changed.decision_message));
}

/// The operator's own termination ends an active peering as soon as the peer
/// took it, which it says with 200; before that, and where nothing is active,
/// nothing changes.
pub proof fn law_the_operator_ends_a_peering(
    reply: Result<u16, TransportError>,
    status: PeerStatus,
    told: PeerRelationshipDeleteBody,
    settled: Result<PeerChange, InitiateError>,
)
    requires
        call_ensures(settle_termination, (reply, status, told), settled),
    ensures
        settled is Ok <==> reply == Ok::<u16, TransportError>(200u16),
        settled matches Ok(change) ==> {
            &&& change is Terminate <==> status is Active
            &&& change is Keep <==> !(status is Active)
            &&& change matches PeerChange::Terminate { reason, message } ==> reason == told.reason
                && fields::optional_text(message) == fields::optional_text(told.message)
        },
{
}

/// What is kept for peers is open to active ones alone, but for the call that
/// ends a peering, which one that ended may repeat.
pub proof fn law_only_active_peers_are_admitted(
    status: Option<PeerStatus>,
    ends_peering: bool,
    yes: bool,
)
    requires
        call_ensures(peer_is_admitted, (status, ends_peering), yes),
    ensures
        yes <==> (status matches Some(s) && (s is Active || (s is Terminated && ends_peering))),
{
}

/// The list of peers tells of every active peer, in order: its domain, its
/// key, when it was first seen and what it can do, as far as the record can be
/// read.
pub proof fn law_every_active_peer_is_listed(peers: &Vec<ActivePeer>, bytes: Vec<u8>, i: int)
    requires
        call_ensures(handle_peers_list, (peers,), bytes),
        0 <= i < peers@.len(),
    ensures
        cbor::cbor_decoding(bytes@) matches Some(CborView::Dict(all)) && all.len() == 1
            && all[0].0 == CborView::Text("peers"@) && (all[0].1 matches CborView::Array(list)
            && list.len() == peers@.len() && (list[i] matches CborView::Dict(e) && {
            let p = peers@[i];
            &&& e.len() == 4
            &&& e[0] == (CborView::Text("domain"@), CborView::Text(p.instance_domain@))
            &&& e[1] == (CborView::Text("instance_pubkey"@), CborView::Bytes(p.instance_pubkey@))
            &&& e[2].0 == CborView::Text("since"@)
            &&& timestamp::unix_ms_of(p.first_seen@) matches Some(ms) ==> e[2].1
                == CborView::Integer(ms as int)
            &&& e[3].0 == CborView::Text("capabilities"@)
            &&& p.capabilities matches Some(stored) ==> (texts_stored(stored@) matches Some(names)
                ==> e[3].1 == fields::texts_item(names))
        })),
{
}

/// No two statuses and no two directions are stored under one word, so that
/// what is stored reads back.
pub proof fn law_stored_words_differ(
    status: PeerStatus,
    other: PeerStatus,
    direction: PeerDirection,
    opposite: PeerDirection,
)
    ensures
        status.text() == other.text() ==> status == other,
        direction.text() == opposite.text() ==> direction == opposite,
{
    reveal_strlit("pending_outbound");
    reveal_strlit("pending_inbound");
    reveal_strlit("active");
    reveal_strlit("rejected");
    reveal_strlit("terminated");
    reveal_strlit("outbound");
    reveal_strlit("inbound");
    assert("pending_outbound"@.len() == 16 && "pending_inbound"@.len() == 15);
    assert("active"@.len() == 6 && "rejected"@.len() == 8 && "terminated"@.len() == 10);
    assert("outbound"@.len() == 8 && "inbound"@.len() == 7);
}

/// A list of capabilities that was stored is read as that list.
pub proof fn law_stored_capabilities_are_read(
    items: &[String],
    bytes: Vec<u8>,
    stored: &[u8],
    list: Option<Vec<String>>,
)
    requires
        call_ensures(encode_text_array, (items,), bytes),
        stored@ == bytes@,
        call_ensures(decode_text_array, (stored,), list),
    ensures
        list matches Some(l) && fields::texts_view(l@) == fields::texts_view(items@),
{
}

/// A request was taken where it is answered with 202, and an acceptance or a
/// termination where it is answered with 200; anything else is the error.
pub proof fn law_answers_of_peers_are_understood(
    status: u16,
    initiated: Result<(), InitiateError>,
    called_back: Result<(), InitiateError>,
)
    requires
        call_ensures(initiate_outcome, (status,), initiated),
        call_ensures(callback_outcome, (status,), called_back),
    ensures
        initiated is Ok <==> status == 202,
        called_back is Ok <==> status == 200,
        initiated is Err ==> initiated->Err_0 == InitiateError::UnexpectedStatus(status),
        called_back is Err ==> called_back->Err_0 == InitiateError::UnexpectedStatus(status),
{
}

/// Each refusal has its status, and those that a peer can do something about
/// their code.
pub proof fn law_peer_refusals_have_their_answers(
    refusal: PeerRefusal,
    status: u16,
    code: Option<&'static str>,
)
    requires
        call_ensures(PeerRefusal::status, (&refusal,), status),
        call_ensures(PeerRefusal::code, (&refusal,), code),
    ensures
        refusal is InvalidBody ==> status == 400 && (code matches Some(c) && c@
            == "invalid_body"@),
        refusal is InvalidInitiatorDomain ==> status == 400 && (code matches Some(c) && c@
            == "invalid_initiator_domain"@),
        refusal is DomainTaken ==> status == 409 && (code matches Some(c) && c@
            == "domain_taken"@),
        refusal is UnknownRequest ==> status == 404 && (code matches Some(c) && c@
            == "unknown_request"@),
        refusal is Unauthorized ==> status == 401 && code is None,
        refusal is Internal ==> status == 500 && code is None,
{
}

/// What a peer is told at the end of a peering is what the operator said.
pub proof fn law_the_peer_is_told_what_the_operator_said(
    terminator_domain: &str,
    reason: TerminationReason,
    message: Option<String>,
    now_ms: u64,
    body: PeerRelationshipDeleteBody,
)
    requires
        call_ensures(
            terminate_peer_relationship_at,
            (terminator_domain, reason, message, now_ms),
            body,
        ),
    ensures
        body.terminator_domain@ == terminator_domain@,
        body.reason == reason,
        body.message == message,
        body.created_at == now_ms,
{
}

} // verus!
