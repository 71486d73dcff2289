//! How two instances become peers and part again: the bodies that they
//! exchange, and what each side decides on them.

use vstd::prelude::*;
use vstd::utf8::*;

use crate::cbor;
use crate::cbor::{Cbor, CborView, DictBuilder};
use crate::federation::fields;
use crate::federation::fields::{
    find_field, id_field, key_field, text_field, texts, texts_field, uint_field, Field, FieldKind,
    FieldRef,
};
use crate::text::same_text;

verus! {

/// The longest domain that a termination may name.
pub const MAX_DOMAIN_LEN: usize = 255;

/// The longest message that a termination may carry.
pub const MAX_MESSAGE_LEN: usize = 4096;

/// The answer to a peering request.
#[derive(Clone, Copy, Debug, PartialEq, Eq, Structural)]
pub enum PeerDecision {
    Accept,
    Reject,
}

/// The word for a decision.
pub open spec fn decision_word(d: PeerDecision) -> Seq<char> {
    match d {
        PeerDecision::Accept => "accept"@,
        PeerDecision::Reject => "reject"@,
    }
}

/// The decision that a word stands for.
pub open spec fn decision_of(word: Seq<char>) -> Option<PeerDecision> {
    if word == "accept"@ {
        Some(PeerDecision::Accept)
    } else if word == "reject"@ {
        Some(PeerDecision::Reject)
    } else {
        None
    }
}

impl PeerDecision {
    /// The word for the decision.
    pub fn as_str(self) -> (word: &'static str)
        ensures
            word@ == decision_word(self),
    {
        match self {
            PeerDecision::Accept => "accept",
            PeerDecision::Reject => "reject",
        }
    }

    /// The decision that a word stands for.
    pub fn parse(s: &str) -> (decision: Option<PeerDecision>)
        ensures
            decision == decision_of(s@),
    {
        if same_text(s, "accept") {
            Some(PeerDecision::Accept)
        } else if same_text(s, "reject") {
            Some(PeerDecision::Reject)
        } else {
            None
        }
    }
}

/// Why a peering ends.
#[derive(Clone, Copy, Debug, PartialEq, Eq, Structural)]
pub enum TerminationReason {
    OperatorInitiated,
    CompromiseResponse,
    PolicyViolation,
}

/// The word for a reason.
pub open spec fn reason_word(r: TerminationReason) -> Seq<char> {
    match r {
        TerminationReason::OperatorInitiated => "operator_initiated"@,
        TerminationReason::CompromiseResponse => "compromise_response"@,
        TerminationReason::PolicyViolation => "policy_violation"@,
    }
}

/// The reason that a word stands for.
pub open spec fn reason_of(word: Seq<char>) -> Option<TerminationReason> {
    if word == "operator_initiated"@ {
        Some(TerminationReason::OperatorInitiated)
    } else if word == "compromise_response"@ {
        Some(TerminationReason::CompromiseResponse)
    } else if word == "policy_violation"@ {
        Some(TerminationReason::PolicyViolation)
    } else {
        None
    }
}

impl TerminationReason {
    /// The word for the reason.
    pub fn as_str(self) -> (word: &'static str)
        ensures
            word@ == reason_word(self),
    {
        match self {
            TerminationReason::OperatorInitiated => "operator_initiated",
            TerminationReason::CompromiseResponse => "compromise_response",
            TerminationReason::PolicyViolation => "policy_violation",
        }
    }

    /// The reason that a word stands for.
    pub fn parse(s: &str) -> (reason: Option<TerminationReason>)
        ensures
            reason == reason_of(s@),
    {
        if same_text(s, "operator_initiated") {
            Some(TerminationReason::OperatorInitiated)
        } else if same_text(s, "compromise_response") {
            Some(TerminationReason::CompromiseResponse)
        } else if same_text(s, "policy_violation") {
            Some(TerminationReason::PolicyViolation)
        } else {
            None
        }
    }
}

/// The word for a decision stands for it, and for no other.
pub proof fn law_decision_words_read_back(d: PeerDecision)
    ensures
        decision_of(decision_word(d)) == Some(d),
{
    reveal_strlit("accept");
    reveal_strlit("reject");
    assert("accept"@[0] != "reject"@[0]);
}

/// The word for a reason stands for it, and for no other.
pub proof fn law_reason_words_read_back(r: TerminationReason)
    ensures
        reason_of(reason_word(r)) == Some(r),
{
    reveal_strlit("operator_initiated");
    reveal_strlit("compromise_response");
    reveal_strlit("policy_violation");
    assert("operator_initiated"@.len() == 18);
    assert("compromise_response"@.len() == 19);
    assert("policy_violation"@.len() == 16);
}

/// What an optional byte string holds.
pub open spec fn optional_bytes(b: Option<Vec<u8>>) -> Option<Seq<u8>> {
    match b {
        Some(v) => Some(v@),
        None => None,
    }
}

/// One entry of a body.
pub open spec fn entry(key: Seq<char>, value: CborView) -> (CborView, CborView) {
    (CborView::Text(key), value)
}

/// An instance asks another to become its peer.
#[derive(Debug, PartialEq, Eq)]
pub struct PeerRequestBody {
    pub initiator_domain: String,
    pub initiator_instance_pubkey: [u8; 32],
    pub proposed_capabilities: Vec<String>,
    pub introduction: Option<String>,
    pub request_id: [u8; 16],
    pub created_at: u64,
}

/// What a peering request holds.
#[verifier::ext_equal]
pub struct PeerRequest {
    pub initiator_domain: Seq<char>,
    pub initiator_instance_pubkey: Seq<u8>,
    pub proposed_capabilities: Seq<Seq<char>>,
    pub introduction: Option<Seq<char>>,
    pub request_id: Seq<u8>,
    pub created_at: u64,
}

/// Whether the keys of a request have their lengths.
pub open spec fn is_request(r: PeerRequest) -> bool {
    r.initiator_instance_pubkey.len() == 32 && r.request_id.len() == 16
}

/// The entries of a request on the wire.
pub open spec fn request_entries(r: PeerRequest) -> Seq<(CborView, CborView)> {
    let e = Seq::<(CborView, CborView)>::empty().push(
        entry("initiator_domain"@, CborView::Text(r.initiator_domain)),
    ).push(
        entry("initiator_instance_pubkey"@, CborView::Bytes(r.initiator_instance_pubkey)),
    ).push(entry("proposed_capabilities"@, fields::texts_item(r.proposed_capabilities))).push(
        entry("request_id"@, CborView::Bytes(r.request_id)),
    ).push(entry("created_at"@, CborView::Integer(r.created_at as int)));
    match r.introduction {
        Some(t) => e.push(entry("introduction"@, CborView::Text(t))),
        None => e,
    }
}

/// The request that the entries of a map hold, if they hold one.
pub open spec fn request_of(e: Seq<(CborView, CborView)>) -> Option<PeerRequest> {
    let domain = fields::field(e, "initiator_domain"@, FieldKind::Text);
    let key = fields::field(e, "initiator_instance_pubkey"@, FieldKind::Bytes(32));
    let caps = fields::field(e, "proposed_capabilities"@, FieldKind::Texts);
    let intro = fields::field(e, "introduction"@, FieldKind::Text);
    let id = fields::field(e, "request_id"@, FieldKind::Bytes(16));
    let at = fields::field(e, "created_at"@, FieldKind::Uint);
    if domain is Is && key is Is && caps is Is && !(intro is Bad) && id is Is && at is Is {
        Some(
            PeerRequest {
                initiator_domain: domain->Is_0->Text_0,
                initiator_instance_pubkey: key->Is_0->Bytes_0,
                proposed_capabilities: fields::texts_of(caps->Is_0)->Some_0,
                introduction: fields::text_in(intro),
                request_id: id->Is_0->Bytes_0,
                created_at: at->Is_0->Integer_0 as u64,
            },
        )
    } else {
        None
    }
}

/// The request that a body holds, if it holds one.
pub open spec fn request_in(bytes: Seq<u8>) -> Option<PeerRequest> {
    match cbor::cbor_decoding(bytes) {
        Some(CborView::Dict(e)) => request_of(e),
        _ => None,
    }
}

/// The keys of the bodies differ from one another.
proof fn lemma_request_keys()
    ensures
        "initiator_domain"@ != "initiator_instance_pubkey"@,
        "initiator_domain"@ != "proposed_capabilities"@,
        "initiator_domain"@ != "introduction"@,
        "initiator_domain"@ != "request_id"@,
        "initiator_domain"@ != "created_at"@,
        "initiator_instance_pubkey"@ != "proposed_capabilities"@,
        "initiator_instance_pubkey"@ != "introduction"@,
        "initiator_instance_pubkey"@ != "request_id"@,
        "initiator_instance_pubkey"@ != "created_at"@,
        "proposed_capabilities"@ != "introduction"@,
        "proposed_capabilities"@ != "request_id"@,
        "proposed_capabilities"@ != "created_at"@,
        "introduction"@ != "request_id"@,
        "introduction"@ != "created_at"@,
        "request_id"@ != "created_at"@,
{
    reveal_strlit("initiator_domain");
    reveal_strlit("initiator_instance_pubkey");
    reveal_strlit("proposed_capabilities");
    reveal_strlit("introduction");
    reveal_strlit("request_id");
    reveal_strlit("created_at");
    assert("initiator_domain"@.len() == 16);
    assert("initiator_instance_pubkey"@.len() == 25);
    assert("proposed_capabilities"@.len() == 21);
    assert("introduction"@.len() == 12);
    assert("request_id"@.len() == 10);
    assert("created_at"@.len() == 10);
    assert("request_id"@[0] != "created_at"@[0]);
}

/// A request reads back from its entries.
pub proof fn law_request_reads_back(r: PeerRequest)
    requires
        is_request(r),
    ensures
        request_of(request_entries(r)) == Some(r),
{
    fields::lemma_field_push();
    lemma_request_keys();
    fields::law_texts_read_back(r.proposed_capabilities);
    assert(request_of(request_entries(r))->Some_0 =~= r);
}

impl PeerRequestBody {
    /// What the request holds.
    pub open spec fn view(&self) -> PeerRequest {
        PeerRequest {
            initiator_domain: self.initiator_domain@,
            initiator_instance_pubkey: self.initiator_instance_pubkey@,
            proposed_capabilities: fields::texts_view(self.proposed_capabilities@),
            introduction: fields::optional_text(self.introduction),
            request_id: self.request_id@,
            created_at: self.created_at,
        }
    }

    /// The request on the wire.
    pub fn encode(&self) -> (bytes: Vec<u8>)
        ensures
            bytes@ == cbor::cbor_encoding(CborView::Dict(request_entries(self@))),
            cbor::cbor_decoding(bytes@) == Some(CborView::Dict(request_entries(self@))),
            request_in(bytes@) == Some(self@),
    {
        let mut dict = DictBuilder::new();
        dict.put("initiator_domain", cbor::text(self.initiator_domain.as_str()));
        dict.put("initiator_instance_pubkey", cbor::bytes(&self.initiator_instance_pubkey));
        dict.put("proposed_capabilities", texts(self.proposed_capabilities.as_slice()));
        dict.put("request_id", cbor::bytes(&self.request_id));
        dict.put("created_at", cbor::uint(self.created_at));
        if let Some(intro) = &self.introduction {
            dict.put("introduction", cbor::text(intro.as_str()));
        }
        proof {
            assert(dict@ == request_entries(self@));
            law_request_reads_back(self@);
            fields::law_texts_read_back(self@.proposed_capabilities);
            fields::lemma_plain_is_writable(dict@);
        }
        let item: Cbor = dict.finish();
        cbor::encode(&item)
    }

    /// Reads a request.
    pub fn decode(bytes: &[u8]) -> (body: Option<PeerRequestBody>)
        ensures
            match body {
                Some(b) => request_in(bytes@) == Some(b@),
                None => request_in(bytes@) is None,
            },
    {
        let item: Cbor = match cbor::decode(bytes) {
            Some(item) => item,
            None => return None,
        };
        proof {
            cbor::lemma_dict_view(item);
        }
        let entries: &Vec<(Cbor, Cbor)> = match &item {
            Cbor::Dict(entries) => entries,
            _ => return None,
        };
        if matches!(find_field(entries, "introduction", FieldKind::Text), FieldRef::Bad) {
            return None;
        }
        let initiator_domain: String = match text_field(entries, "initiator_domain") {
            Some(t) => t,
            None => return None,
        };
        let initiator_instance_pubkey: [u8; 32] = match key_field(
            entries,
            "initiator_instance_pubkey",
        ) {
            Some(k) => k,
            None => return None,
        };
        let proposed_capabilities: Vec<String> = match texts_field(
            entries,
            "proposed_capabilities",
        ) {
            Some(l) => l,
            None => return None,
        };
        let request_id: [u8; 16] = match id_field(entries, "request_id") {
            Some(k) => k,
            None => return None,
        };
        let created_at: u64 = match uint_field(entries, "created_at") {
            Some(n) => n,
            None => return None,
        };
        Some(
            PeerRequestBody {
                initiator_domain,
                initiator_instance_pubkey,
                proposed_capabilities,
                introduction: text_field(entries, "introduction"),
                request_id,
                created_at,
            },
        )
    }
}

/// The answer to a peering request.
#[derive(Debug, PartialEq, Eq)]
pub struct PeerResponseBody {
    pub request_id: [u8; 16],
    pub responder_domain: String,
    pub responder_instance_pubkey: [u8; 32],
    pub decision: PeerDecision,
    pub agreed_capabilities: Option<Vec<String>>,
    pub decision_message: Option<String>,
    pub created_at: u64,
}

/// What an answer holds.
#[verifier::ext_equal]
pub struct PeerResponse {
    pub request_id: Seq<u8>,
    pub responder_domain: Seq<char>,
    pub responder_instance_pubkey: Seq<u8>,
    pub decision: PeerDecision,
    pub agreed_capabilities: Option<Seq<Seq<char>>>,
    pub decision_message: Option<Seq<char>>,
    pub created_at: u64,
}

/// Whether an answer is sound: its keys have their lengths, and it agrees on
/// capabilities exactly where it accepts.
pub open spec fn is_response(r: PeerResponse) -> bool {
    &&& r.responder_instance_pubkey.len() == 32
    &&& r.request_id.len() == 16
    &&& r.agreed_capabilities is Some <==> r.decision is Accept
}

/// The entries of an answer on the wire.
pub open spec fn response_entries(r: PeerResponse) -> Seq<(CborView, CborView)> {
    let e = Seq::<(CborView, CborView)>::empty().push(
        entry("request_id"@, CborView::Bytes(r.request_id)),
    ).push(entry("responder_domain"@, CborView::Text(r.responder_domain))).push(
        entry("responder_instance_pubkey"@, CborView::Bytes(r.responder_instance_pubkey)),
    ).push(entry("decision"@, CborView::Text(decision_word(r.decision)))).push(
        entry("created_at"@, CborView::Integer(r.created_at as int)),
    );
    let with_caps = match r.agreed_capabilities {
        Some(l) => e.push(entry("agreed_capabilities"@, fields::texts_item(l))),
        None => e,
    };
    match r.decision_message {
        Some(t) => with_caps.push(entry("decision_message"@, CborView::Text(t))),
        None => with_caps,
    }
}

/// The answer that the entries of a map hold, if they hold one.
pub open spec fn response_of(e: Seq<(CborView, CborView)>) -> Option<PeerResponse> {
    let id = fields::field(e, "request_id"@, FieldKind::Bytes(16));
    let domain = fields::field(e, "responder_domain"@, FieldKind::Text);
    let key = fields::field(e, "responder_instance_pubkey"@, FieldKind::Bytes(32));
    let decision = fields::field(e, "decision"@, FieldKind::Decision);
    let caps = fields::field(e, "agreed_capabilities"@, FieldKind::Texts);
    let message = fields::field(e, "decision_message"@, FieldKind::Text);
    let at = fields::field(e, "created_at"@, FieldKind::Uint);
    if id is Is && domain is Is && key is Is && decision is Is && !(caps is Bad) && !(
    message is Bad) && at is Is && (caps is Is <==> decision_of(decision->Is_0->Text_0) == Some(
        PeerDecision::Accept,
    )) {
        Some(
            PeerResponse {
                request_id: id->Is_0->Bytes_0,
                responder_domain: domain->Is_0->Text_0,
                responder_instance_pubkey: key->Is_0->Bytes_0,
                decision: decision_of(decision->Is_0->Text_0)->Some_0,
                agreed_capabilities: fields::texts_in(caps),
                decision_message: fields::text_in(message),
                created_at: at->Is_0->Integer_0 as u64,
            },
        )
    } else {
        None
    }
}

/// The answer that a body holds, if it holds one.
pub open spec fn response_in(bytes: Seq<u8>) -> Option<PeerResponse> {
    match cbor::cbor_decoding(bytes) {
        Some(CborView::Dict(e)) => response_of(e),
        _ => None,
    }
}

proof fn lemma_response_keys()
    ensures
        "request_id"@ != "responder_domain"@,
        "request_id"@ != "responder_instance_pubkey"@,
        "request_id"@ != "decision"@,
        "request_id"@ != "created_at"@,
        "request_id"@ != "agreed_capabilities"@,
        "request_id"@ != "decision_message"@,
        "responder_domain"@ != "responder_instance_pubkey"@,
        "responder_domain"@ != "decision"@,
        "responder_domain"@ != "created_at"@,
        "responder_domain"@ != "agreed_capabilities"@,
        "responder_domain"@ != "decision_message"@,
        "responder_instance_pubkey"@ != "decision"@,
        "responder_instance_pubkey"@ != "created_at"@,
        "responder_instance_pubkey"@ != "agreed_capabilities"@,
        "responder_instance_pubkey"@ != "decision_message"@,
        "decision"@ != "created_at"@,
        "decision"@ != "agreed_capabilities"@,
        "decision"@ != "decision_message"@,
        "created_at"@ != "agreed_capabilities"@,
        "created_at"@ != "decision_message"@,
        "agreed_capabilities"@ != "decision_message"@,
{
    reveal_strlit("request_id");
    reveal_strlit("responder_domain");
    reveal_strlit("responder_instance_pubkey");
    reveal_strlit("decision");
    reveal_strlit("created_at");
    reveal_strlit("agreed_capabilities");
    reveal_strlit("decision_message");
    assert("request_id"@.len() == 10);
    assert("responder_domain"@.len() == 16);
    assert("responder_instance_pubkey"@.len() == 25);
    assert("decision"@.len() == 8);
    assert("created_at"@.len() == 10);
    assert("agreed_capabilities"@.len() == 19);
    assert("decision_message"@.len() == 16);
    assert("request_id"@[0] != "created_at"@[0]);
    assert("responder_domain"@[0] != "decision_message"@[0]);
}

/// An answer reads back from its entries.
pub proof fn law_response_reads_back(r: PeerResponse)
    requires
        is_response(r),
    ensures
        response_of(response_entries(r)) == Some(r),
{
    fields::lemma_field_push();
    lemma_response_keys();
    law_decision_words_read_back(r.decision);
    if let Some(l) = r.agreed_capabilities {
        fields::law_texts_read_back(l);
    }
    assert(response_of(response_entries(r))->Some_0 =~= r);
}

/// The decision in a map, if there is one and it is sound.
fn decision_field(entries: &Vec<(Cbor, Cbor)>) -> (decision: Option<PeerDecision>)
    ensures
        match fields::field(cbor::entries_view(entries@), "decision"@, FieldKind::Decision) {
            Field::Is(v) => decision is Some && decision == decision_of(v->Text_0),
            _ => decision is None,
        },
{
    proof {
        fields::lemma_field_kind(
            cbor::entries_view(entries@),
            "decision"@,
            FieldKind::Decision,
        );
    }
    match find_field(entries, "decision", FieldKind::Decision) {
        FieldRef::Is(Cbor::Text(t)) => PeerDecision::parse(t.as_str()),
        _ => None,
    }
}

impl PeerResponseBody {
    /// What the answer holds.
    pub open spec fn view(&self) -> PeerResponse {
        PeerResponse {
            request_id: self.request_id@,
            responder_domain: self.responder_domain@,
            responder_instance_pubkey: self.responder_instance_pubkey@,
            decision: self.decision,
            agreed_capabilities: fields::optional_texts(self.agreed_capabilities),
            decision_message: fields::optional_text(self.decision_message),
            created_at: self.created_at,
        }
    }

    /// The answer on the wire.
    pub fn encode(&self) -> (bytes: Vec<u8>)
        ensures
            bytes@ == cbor::cbor_encoding(CborView::Dict(response_entries(self@))),
            cbor::cbor_decoding(bytes@) == Some(CborView::Dict(response_entries(self@))),
            is_response(self@) ==> response_in(bytes@) == Some(self@),
    {
        let mut dict = DictBuilder::new();
        dict.put("request_id", cbor::bytes(&self.request_id));
        dict.put("responder_domain", cbor::text(self.responder_domain.as_str()));
        dict.put("responder_instance_pubkey", cbor::bytes(&self.responder_instance_pubkey));
        dict.put("decision", cbor::text(self.decision.as_str()));
        dict.put("created_at", cbor::uint(self.created_at));
        if let Some(caps) = &self.agreed_capabilities {
            dict.put("agreed_capabilities", texts(caps.as_slice()));
            proof {
                fields::law_texts_read_back(fields::texts_view(caps@));
            }
        }
        if let Some(message) = &self.decision_message {
            dict.put("decision_message", cbor::text(message.as_str()));
        }
        proof {
            assert(dict@ == response_entries(self@));
            if is_response(self@) {
                law_response_reads_back(self@);
            }
            fields::lemma_plain_is_writable(dict@);
        }
        let item: Cbor = dict.finish();
        cbor::encode(&item)
    }

    /// Reads an answer.
    pub fn decode(bytes: &[u8]) -> (body: Option<PeerResponseBody>)
        ensures
            match body {
                Some(b) => response_in(bytes@) == Some(b@) && is_response(b@),
                None => response_in(bytes@) is None,
            },
    {
        let item: Cbor = match cbor::decode(bytes) {
            Some(item) => item,
            None => return None,
        };
        proof {
            cbor::lemma_dict_view(item);
        }
        let entries: &Vec<(Cbor, Cbor)> = match &item {
            Cbor::Dict(entries) => entries,
            _ => return None,
        };
        if matches!(find_field(entries, "agreed_capabilities", FieldKind::Texts), FieldRef::Bad) {
            return None;
        }
        if matches!(find_field(entries, "decision_message", FieldKind::Text), FieldRef::Bad) {
            return None;
        }
        let request_id: [u8; 16] = match id_field(entries, "request_id") {
            Some(k) => k,
            None => return None,
        };
        let responder_domain: String = match text_field(entries, "responder_domain") {
            Some(t) => t,
            None => return None,
        };
        let responder_instance_pubkey: [u8; 32] = match key_field(
            entries,
            "responder_instance_pubkey",
        ) {
            Some(k) => k,
            None => return None,
        };
        let decision: PeerDecision = match decision_field(entries) {
            Some(d) => d,
            None => return None,
        };
        let created_at: u64 = match uint_field(entries, "created_at") {
            Some(n) => n,
            None => return None,
        };
        let agreed_capabilities: Option<Vec<String>> = texts_field(entries, "agreed_capabilities");
        if agreed_capabilities.is_some() != matches!(decision, PeerDecision::Accept) {
            return None;
        }
        Some(
            PeerResponseBody {
                request_id,
                responder_domain,
                responder_instance_pubkey,
                decision,
                agreed_capabilities,
                decision_message: text_field(entries, "decision_message"),
                created_at,
            },
        )
    }
}

/// An instance ends a peering.
#[derive(Debug, PartialEq, Eq)]
pub struct PeerRelationshipDeleteBody {
    pub terminator_domain: String,
    pub reason: TerminationReason,
    pub message: Option<String>,
    pub created_at: u64,
}

/// What a termination holds.
#[verifier::ext_equal]
pub struct PeerTermination {
    pub terminator_domain: Seq<char>,
    pub reason: TerminationReason,
    pub message: Option<Seq<char>>,
    pub created_at: u64,
}

/// The entries of a termination on the wire.
pub open spec fn termination_entries(t: PeerTermination) -> Seq<(CborView, CborView)> {
    let e = Seq::<(CborView, CborView)>::empty().push(
        entry("terminator_domain"@, CborView::Text(t.terminator_domain)),
    ).push(entry("reason"@, CborView::Text(reason_word(t.reason)))).push(
        entry("created_at"@, CborView::Integer(t.created_at as int)),
    );
    match t.message {
        Some(m) => e.push(entry("message"@, CborView::Text(m))),
        None => e,
    }
}

/// The termination that the entries of a map hold, if they hold one.
pub open spec fn termination_of(e: Seq<(CborView, CborView)>) -> Option<PeerTermination> {
    let domain = fields::field(e, "terminator_domain"@, FieldKind::Text);
    let reason = fields::field(e, "reason"@, FieldKind::Reason);
    let message = fields::field(e, "message"@, FieldKind::Text);
    let at = fields::field(e, "created_at"@, FieldKind::Uint);
    if domain is Is && reason is Is && !(message is Bad) && at is Is {
        Some(
            PeerTermination {
                terminator_domain: domain->Is_0->Text_0,
                reason: reason_of(reason->Is_0->Text_0)->Some_0,
                message: fields::text_in(message),
                created_at: at->Is_0->Integer_0 as u64,
            },
        )
    } else {
        None
    }
}

/// The termination that a body holds, if it holds one.
pub open spec fn termination_in(bytes: Seq<u8>) -> Option<PeerTermination> {
    match cbor::cbor_decoding(bytes) {
        Some(CborView::Dict(e)) => termination_of(e),
        _ => None,
    }
}

/// A termination reads back from its entries.
pub proof fn law_termination_reads_back(t: PeerTermination)
    ensures
        termination_of(termination_entries(t)) == Some(t),
{
    fields::lemma_field_push();
    law_reason_words_read_back(t.reason);
    reveal_strlit("terminator_domain");
    reveal_strlit("reason");
    reveal_strlit("message");
    reveal_strlit("created_at");
    assert("terminator_domain"@.len() == 17);
    assert("reason"@.len() == 6);
    assert("message"@.len() == 7);
    assert("created_at"@.len() == 10);
    assert(termination_of(termination_entries(t))->Some_0 =~= t);
}

/// The reason in a map, if there is one and it is sound.
fn reason_field(entries: &Vec<(Cbor, Cbor)>) -> (reason: Option<TerminationReason>)
    ensures
        match fields::field(cbor::entries_view(entries@), "reason"@, FieldKind::Reason) {
            Field::Is(v) => reason is Some && reason == reason_of(v->Text_0),
            _ => reason is None,
        },
{
    proof {
        fields::lemma_field_kind(cbor::entries_view(entries@), "reason"@, FieldKind::Reason);
    }
    match find_field(entries, "reason", FieldKind::Reason) {
        FieldRef::Is(Cbor::Text(t)) => TerminationReason::parse(t.as_str()),
        _ => None,
    }
}

impl PeerRelationshipDeleteBody {
    /// What the termination holds.
    pub open spec fn view(&self) -> PeerTermination {
        PeerTermination {
            terminator_domain: self.terminator_domain@,
            reason: self.reason,
            message: fields::optional_text(self.message),
            created_at: self.created_at,
        }
    }

    /// The termination on the wire.
    pub fn encode(&self) -> (bytes: Vec<u8>)
        ensures
            bytes@ == cbor::cbor_encoding(CborView::Dict(termination_entries(self@))),
            cbor::cbor_decoding(bytes@) == Some(CborView::Dict(termination_entries(self@))),
            termination_in(bytes@) == Some(self@),
    {
        let mut dict = DictBuilder::new();
        dict.put("terminator_domain", cbor::text(self.terminator_domain.as_str()));
        dict.put("reason", cbor::text(self.reason.as_str()));
        dict.put("created_at", cbor::uint(self.created_at));
        if let Some(message) = &self.message {
            dict.put("message", cbor::text(message.as_str()));
        }
        proof {
            assert(dict@ == termination_entries(self@));
            law_termination_reads_back(self@);
            fields::lemma_plain_is_writable(dict@);
        }
        let item: Cbor = dict.finish();
        cbor::encode(&item)
    }

    /// Reads a termination.
    pub fn decode(bytes: &[u8]) -> (body: Option<PeerRelationshipDeleteBody>)
        ensures
            match body {
                Some(b) => termination_in(bytes@) == Some(b@),
                None => termination_in(bytes@) is None,
            },
    {
        let item: Cbor = match cbor::decode(bytes) {
            Some(item) => item,
            None => return None,
        };
        proof {
            cbor::lemma_dict_view(item);
        }
        let entries: &Vec<(Cbor, Cbor)> = match &item {
            Cbor::Dict(entries) => entries,
            _ => return None,
        };
        if matches!(find_field(entries, "message", FieldKind::Text), FieldRef::Bad) {
            return None;
        }
        let terminator_domain: String = match text_field(entries, "terminator_domain") {
            Some(t) => t,
            None => return None,
        };
        let reason: TerminationReason = match reason_field(entries) {
            Some(r) => r,
            None => return None,
        };
        let created_at: u64 = match uint_field(entries, "created_at") {
            Some(n) => n,
            None => return None,
        };
        Some(
            PeerRelationshipDeleteBody {
                terminator_domain,
                reason,
                message: text_field(entries, "message"),
                created_at,
            },
        )
    }
}

/// The answers to a request and the reasons of a termination have their words
/// on the wire.
pub proof fn law_words_on_the_wire(
    decision: PeerDecision,
    decided: &'static str,
    reason: TerminationReason,
    reasoned: &'static str,
)
    requires
        call_ensures(PeerDecision::as_str, (decision,), decided),
        call_ensures(TerminationReason::as_str, (reason,), reasoned),
    ensures
        decided@ == match decision {
            PeerDecision::Accept => "accept"@,
            PeerDecision::Reject => "reject"@,
        },
        reasoned@ == match reason {
            TerminationReason::OperatorInitiated => "operator_initiated"@,
            TerminationReason::CompromiseResponse => "compromise_response"@,
            TerminationReason::PolicyViolation => "policy_violation"@,
        },
{
}

/// A request on the wire is a map with what it holds under the names of its
/// parts, in this order, and the introduction last, where there is one.
pub proof fn law_requests_on_the_wire(request: &PeerRequestBody, bytes: Vec<u8>)
    requires
        call_ensures(PeerRequestBody::encode, (request,), bytes),
    ensures
        cbor::cbor_decoding(bytes@) matches Some(CborView::Dict(e)) && {
            &&& e.len() == if request.introduction is Some {
                6nat
            } else {
                5
            }
            &&& e[0] == (
                CborView::Text("initiator_domain"@),
                CborView::Text(request.initiator_domain@),
            )
            &&& e[1] == (
                CborView::Text("initiator_instance_pubkey"@),
                CborView::Bytes(request.initiator_instance_pubkey@),
            )
            &&& e[2] == (
                CborView::Text("proposed_capabilities"@),
                fields::texts_item(fields::texts_view(request.proposed_capabilities@)),
            )
            &&& e[3] == (CborView::Text("request_id"@), CborView::Bytes(request.request_id@))
            &&& e[4] == (
                CborView::Text("created_at"@),
                CborView::Integer(request.created_at as int),
            )
            &&& request.introduction matches Some(t) ==> e[5] == (
                CborView::Text("introduction"@),
                CborView::Text(t@),
            )
        },
{
}

/// An answer on the wire is a map with what it holds under the names of its
/// parts, in this order, and the capabilities and the message last, where
/// there are any.
pub proof fn law_answers_on_the_wire(answer: &PeerResponseBody, bytes: Vec<u8>)
    requires
        call_ensures(PeerResponseBody::encode, (answer,), bytes),
    ensures
        cbor::cbor_decoding(bytes@) matches Some(CborView::Dict(e)) && {
            let agreed = if answer.agreed_capabilities is Some {
                1int
            } else {
                0
            };
            let said = if answer.decision_message is Some {
                1int
            } else {
                0
            };
            &&& e.len() == 5 + agreed + said
            &&& e[0] == (CborView::Text("request_id"@), CborView::Bytes(answer.request_id@))
            &&& e[1] == (
                CborView::Text("responder_domain"@),
                CborView::Text(answer.responder_domain@),
            )
            &&& e[2] == (
                CborView::Text("responder_instance_pubkey"@),
                CborView::Bytes(answer.responder_instance_pubkey@),
            )
            &&& e[3] == (
                CborView::Text("decision"@),
                CborView::Text(
                    match answer.decision {
                        PeerDecision::Accept => "accept"@,
                        PeerDecision::Reject => "reject"@,
                    },
                ),
            )
            &&& e[4] == (
                CborView::Text("created_at"@),
                CborView::Integer(answer.created_at as int),
            )
            &&& answer.agreed_capabilities matches Some(l) ==> e[5] == (
                CborView::Text("agreed_capabilities"@),
                fields::texts_item(fields::texts_view(l@)),
            )
            &&& answer.decision_message matches Some(t) ==> e[5 + agreed] == (
                CborView::Text("decision_message"@),
                CborView::Text(t@),
            )
        },
{
}

/// A termination on the wire is a map with what it holds under the names of
/// its parts, in this order, and the message last, where there is one.
pub proof fn law_terminations_on_the_wire(told: &PeerRelationshipDeleteBody, bytes: Vec<u8>)
    requires
        call_ensures(PeerRelationshipDeleteBody::encode, (told,), bytes),
    ensures
        cbor::cbor_decoding(bytes@) matches Some(CborView::Dict(e)) && {
            &&& e.len() == if told.message is Some {
                4nat
            } else {
                3
            }
            &&& e[0] == (
                CborView::Text("terminator_domain"@),
                CborView::Text(told.terminator_domain@),
            )
            &&& e[1] == (
                CborView::Text("reason"@),
                CborView::Text(
                    match told.reason {
                        TerminationReason::OperatorInitiated => "operator_initiated"@,
                        TerminationReason::CompromiseResponse => "compromise_response"@,
                        TerminationReason::PolicyViolation => "policy_violation"@,
                    },
                ),
            )
            &&& e[2] == (CborView::Text("created_at"@), CborView::Integer(told.created_at as int))
            &&& told.message matches Some(m) ==> e[3] == (
                CborView::Text("message"@),
                CborView::Text(m@),
            )
        },
{
}

/// What an instance writes, the other reads: each body comes back as it was,
/// an answer where it agrees on capabilities exactly where it accepts.
pub proof fn law_bodies_are_read_as_they_were_written(
    request: &PeerRequestBody,
    request_bytes: Vec<u8>,
    request_read: Option<PeerRequestBody>,
    answer: &PeerResponseBody,
    answer_bytes: Vec<u8>,
    answer_read: Option<PeerResponseBody>,
    told: &PeerRelationshipDeleteBody,
    told_bytes: Vec<u8>,
    told_read: Option<PeerRelationshipDeleteBody>,
    first: &[u8],
    second: &[u8],
    third: &[u8],
)
    requires
        call_ensures(PeerRequestBody::encode, (request,), request_bytes),
        call_ensures(PeerResponseBody::encode, (answer,), answer_bytes),
        call_ensures(PeerRelationshipDeleteBody::encode, (told,), told_bytes),
        first@ == request_bytes@ && second@ == answer_bytes@ && third@ == told_bytes@,
        call_ensures(PeerRequestBody::decode, (first,), request_read),
        call_ensures(PeerResponseBody::decode, (second,), answer_read),
        call_ensures(PeerRelationshipDeleteBody::decode, (third,), told_read),
    ensures
        request_read matches Some(r) && r@ == request@,
        (answer.agreed_capabilities is Some <==> answer.decision is Accept) ==> (
        answer_read matches Some(a) && a@ == answer@),
        told_read matches Some(t) && t@ == told@,
{
}

/// A request is read exactly where every part of it is there and of its kind,
/// and the introduction, which may be missing, is of its kind where it is
/// there; each part is read from under its own name.
pub proof fn law_requests_are_read_in_full(bytes: &[u8], body: Option<PeerRequestBody>)
    requires
        call_ensures(PeerRequestBody::decode, (bytes,), body),
    ensures
        !(cbor::cbor_decoding(bytes@) matches Some(v) && v is Dict) ==> body is None,
        cbor::cbor_decoding(bytes@) matches Some(CborView::Dict(e)) ==> {
            let domain = fields::field(e, "initiator_domain"@, FieldKind::Text);
            let key = fields::field(e, "initiator_instance_pubkey"@, FieldKind::Bytes(32));
            let caps = fields::field(e, "proposed_capabilities"@, FieldKind::Texts);
            let id = fields::field(e, "request_id"@, FieldKind::Bytes(16));
            let at = fields::field(e, "created_at"@, FieldKind::Uint);
            let intro = fields::field(e, "introduction"@, FieldKind::Text);
            &&& body is Some <==> domain is Is && key is Is && caps is Is && id is Is && at is Is
                && (intro is Is || intro is Absent)
            &&& body matches Some(r) ==> {
                &&& domain == Field::Is(CborView::Text(r.initiator_domain@))
                &&& key == Field::Is(CborView::Bytes(r.initiator_instance_pubkey@))
                &&& id == Field::Is(CborView::Bytes(r.request_id@))
                &&& at == Field::Is(CborView::Integer(r.created_at as int))
                &&& fields::texts_in(caps) == Some(fields::texts_view(r.proposed_capabilities@))
                &&& intro is Absent <==> r.introduction is None
                &&& r.introduction matches Some(t) ==> intro == Field::Is(CborView::Text(t@))
            }
        },
{
    if let Some(CborView::Dict(e)) = cbor::cbor_decoding(bytes@) {
        fields::lemma_field_kind(e, "initiator_domain"@, FieldKind::Text);
        fields::lemma_field_kind(e, "initiator_instance_pubkey"@, FieldKind::Bytes(32));
        fields::lemma_field_kind(e, "proposed_capabilities"@, FieldKind::Texts);
        fields::lemma_field_kind(e, "request_id"@, FieldKind::Bytes(16));
        fields::lemma_field_kind(e, "created_at"@, FieldKind::Uint);
        fields::lemma_field_kind(e, "introduction"@, FieldKind::Text);
        if let Some(r) = body {
            assert(r@.initiator_domain == r.initiator_domain@);
            assert(r@.introduction == fields::optional_text(r.introduction));
            assert(r@.request_id == r.request_id@);
        }
    }
}

/// An answer is read exactly where every part of it is there and of its kind,
/// the message, which may be missing, is of its kind where it is there, and
/// the capabilities are there, and of their kind, exactly where it accepts.
pub proof fn law_answers_are_read_in_full(bytes: &[u8], body: Option<PeerResponseBody>)
    requires
        call_ensures(PeerResponseBody::decode, (bytes,), body),
    ensures
        !(cbor::cbor_decoding(bytes@) matches Some(v) && v is Dict) ==> body is None,
        cbor::cbor_decoding(bytes@) matches Some(CborView::Dict(e)) ==> {
            let id = fields::field(e, "request_id"@, FieldKind::Bytes(16));
            let domain = fields::field(e, "responder_domain"@, FieldKind::Text);
            let key = fields::field(e, "responder_instance_pubkey"@, FieldKind::Bytes(32));
            let decision = fields::field(e, "decision"@, FieldKind::Decision);
            let at = fields::field(e, "created_at"@, FieldKind::Uint);
            let caps = fields::field(e, "agreed_capabilities"@, FieldKind::Texts);
            let message = fields::field(e, "decision_message"@, FieldKind::Text);
            let accepts = decision == Field::Is(CborView::Text("accept"@));
            &&& body is Some <==> id is Is && domain is Is && key is Is && decision is Is && at
                is Is && !(message is Bad) && (if accepts {
                caps is Is
            } else {
                caps is Absent
            })
            &&& body matches Some(r) ==> {
                &&& id == Field::Is(CborView::Bytes(r.request_id@))
                &&& domain == Field::Is(CborView::Text(r.responder_domain@))
                &&& key == Field::Is(CborView::Bytes(r.responder_instance_pubkey@))
                &&& at == Field::Is(CborView::Integer(r.created_at as int))
                &&& r.decision is Accept <==> accepts
                &&& fields::texts_in(caps) == fields::optional_texts(r.agreed_capabilities)
                &&& message is Absent <==> r.decision_message is None
                &&& r.decision_message matches Some(t) ==> message == Field::Is(CborView::Text(t@))
            }
        },
{
    if let Some(CborView::Dict(e)) = cbor::cbor_decoding(bytes@) {
        fields::lemma_field_kind(e, "request_id"@, FieldKind::Bytes(16));
        fields::lemma_field_kind(e, "responder_domain"@, FieldKind::Text);
        fields::lemma_field_kind(e, "responder_instance_pubkey"@, FieldKind::Bytes(32));
        fields::lemma_field_kind(e, "decision"@, FieldKind::Decision);
        fields::lemma_field_kind(e, "created_at"@, FieldKind::Uint);
        fields::lemma_field_kind(e, "agreed_capabilities"@, FieldKind::Texts);
        fields::lemma_field_kind(e, "decision_message"@, FieldKind::Text);
        law_decision_words_read_back(PeerDecision::Accept);
        law_decision_words_read_back(PeerDecision::Reject);
        if let Some(r) = body {
            assert(r@.responder_domain == r.responder_domain@);
            assert(r@.decision_message == fields::optional_text(r.decision_message));
            assert(r@.request_id == r.request_id@);
        }
    }
}

/// A termination is read exactly where every part of it is there and of its
/// kind, and the message, which may be missing, is of its kind where it is
/// there.
pub proof fn law_terminations_are_read_in_full(
    bytes: &[u8],
    body: Option<PeerRelationshipDeleteBody>,
)
    requires
        call_ensures(PeerRelationshipDeleteBody::decode, (bytes,), body),
    ensures
        !(cbor::cbor_decoding(bytes@) matches Some(v) && v is Dict) ==> body is None,
        cbor::cbor_decoding(bytes@) matches Some(CborView::Dict(e)) ==> {
            let domain = fields::field(e, "terminator_domain"@, FieldKind::Text);
            let reason = fields::field(e, "reason"@, FieldKind::Reason);
            let at = fields::field(e, "created_at"@, FieldKind::Uint);
            let message = fields::field(e, "message"@, FieldKind::Text);
            &&& body is Some <==> domain is Is && reason is Is && at is Is && !(message is Bad)
            &&& body matches Some(t) ==> {
                &&& domain == Field::Is(CborView::Text(t.terminator_domain@))
                &&& reason == Field::Is(CborView::Text(reason_word(t.reason)))
                &&& at == Field::Is(CborView::Integer(t.created_at as int))
                &&& message is Absent <==> t.message is None
                &&& t.message matches Some(m) ==> message == Field::Is(CborView::Text(m@))
            }
        },
{
    if let Some(CborView::Dict(e)) = cbor::cbor_decoding(bytes@) {
        fields::lemma_field_kind(e, "terminator_domain"@, FieldKind::Text);
        fields::lemma_field_kind(e, "reason"@, FieldKind::Reason);
        fields::lemma_field_kind(e, "created_at"@, FieldKind::Uint);
        fields::lemma_field_kind(e, "message"@, FieldKind::Text);
        if let Some(t) = body {
            assert(t@.terminator_domain == t.terminator_domain@);
            assert(t@.message == fields::optional_text(t.message));
        }
    }
}

/// The words for decisions and reasons are read as what they stand for, and no
/// other word is read.
pub proof fn law_words_are_read(
    s: &str,
    decision: Option<PeerDecision>,
    reason: Option<TerminationReason>,
)
    requires
        call_ensures(PeerDecision::parse, (s,), decision),
        call_ensures(TerminationReason::parse, (s,), reason),
    ensures
        decision == Some(PeerDecision::Accept) <==> s@ == "accept"@,
        decision == Some(PeerDecision::Reject) <==> s@ == "reject"@,
        reason == Some(TerminationReason::OperatorInitiated) <==> s@ == "operator_initiated"@,
        reason == Some(TerminationReason::CompromiseResponse) <==> s@ == "compromise_response"@,
        reason == Some(TerminationReason::PolicyViolation) <==> s@ == "policy_violation"@,
{
    law_decision_words_read_back(PeerDecision::Accept);
    law_decision_words_read_back(PeerDecision::Reject);
    law_reason_words_read_back(TerminationReason::OperatorInitiated);
    law_reason_words_read_back(TerminationReason::CompromiseResponse);
    law_reason_words_read_back(TerminationReason::PolicyViolation);
}

} // verus!
