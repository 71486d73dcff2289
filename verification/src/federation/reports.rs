//! Reports pushed by the homes of those who report: what becomes of each of
//! them.

use vstd::prelude::*;

use crate::bytes::{key_from_slice, same_key};
use crate::crypto;
use crate::federation::fields;
use crate::federation::fields::copy_optional_text;
use crate::federation::push::{Outcome, PushResult};
use crate::federation::signed::{ParseError, Parsed, Report, SignedObject, SignedPayload};
use crate::federation::user_status;
use crate::federation::user_status::registered_home_of;
use crate::federation::wire;
use crate::federation::wire::decode_signed_object;

verus! {

/// How many reports one push may carry.
pub const MAX_REPORT_BATCH: usize = 64;

/// Why a report is refused.
#[derive(Clone, Copy, Debug, PartialEq, Eq)]
pub enum ReportRejectReason {
    InvalidSignature,
    SchemaInvalid,
    UnauthorizedReporter,
    WrongRecipient,
    UnknownClass,
}

/// What became of a report.
#[derive(Clone, Copy, Debug, PartialEq, Eq)]
pub enum ReportResultKind {
    /// The report is in the queue of the moderators.
    Applied,
    /// The reporter has reported the post before.
    Duplicate,
    Rejected(ReportRejectReason),
}

impl ReportRejectReason {
    /// The wire form of the reason.
    pub open spec fn text(&self) -> Seq<char> {
        match self {
            ReportRejectReason::InvalidSignature => "invalid_signature"@,
            ReportRejectReason::SchemaInvalid => "schema_invalid"@,
            ReportRejectReason::UnauthorizedReporter => "unauthorized_reporter"@,
            ReportRejectReason::WrongRecipient => "wrong_recipient"@,
            ReportRejectReason::UnknownClass => "unknown_class"@,
        }
    }

    /// The wire form of the reason.
    pub fn as_str(&self) -> (tag: &'static str)
        ensures
            tag@ == self.text(),
    {
        match self {
            ReportRejectReason::InvalidSignature => "invalid_signature",
            ReportRejectReason::SchemaInvalid => "schema_invalid",
            ReportRejectReason::UnauthorizedReporter => "unauthorized_reporter",
            ReportRejectReason::WrongRecipient => "wrong_recipient",
            ReportRejectReason::UnknownClass => "unknown_class",
        }
    }
}

impl Outcome for ReportResultKind {
    open spec fn status_text(&self) -> Seq<char> {
        match self {
            ReportResultKind::Applied => "applied"@,
            ReportResultKind::Duplicate => "duplicate"@,
            ReportResultKind::Rejected(_) => "rejected"@,
        }
    }

    open spec fn reason_text(&self) -> Option<Seq<char>> {
        match self {
            ReportResultKind::Rejected(r) => Some(r.text()),
            _ => None,
        }
    }

    fn status_tag(&self) -> (tag: &'static str) {
        match self {
            ReportResultKind::Applied => "applied",
            ReportResultKind::Duplicate => "duplicate",
            ReportResultKind::Rejected(_) => "rejected",
        }
    }

    fn reason_tag(&self) -> (tag: Option<&'static str>) {
        match self {
            ReportResultKind::Rejected(r) => Some(r.as_str()),
            _ => None,
        }
    }
}

/// The result of one report.
pub type ReportResult = PushResult<ReportResultKind>;

/// What the store holds about the home of a user.
#[derive(Debug)]
pub struct HomeFacts {
    /// The home on record by the user's moves.
    pub recorded: Option<Vec<u8>>,
    /// The home in the user's row, if there is a row; a row without one
    /// belongs to this instance.
    pub row_home: Option<Option<Vec<u8>>>,
}

/// The home of a user now: the one on record by the user's moves, and
/// otherwise the one in the user's row; none where what is stored has not the
/// form of a key, or nothing is stored.
pub open spec fn current_home(facts: HomeFacts, self_key: Seq<u8>) -> Option<Seq<u8>> {
    match facts.recorded {
        Some(home) => if home@.len() == 32 {
            Some(home@)
        } else {
            None
        },
        None => user_status::registered_home(facts.row_home, self_key),
    }
}

/// The home of a user now.
pub fn resolve_current_home(facts: &HomeFacts, self_key: &[u8; 32]) -> (home: Option<[u8; 32]>)
    ensures
        user_status::key_view(home) == current_home(*facts, self_key@),
{
    match &facts.recorded {
        Some(home) => key_from_slice(home.as_slice()),
        None => registered_home_of(&facts.row_home, self_key),
    }
}

/// What the store holds that bears on one report.
#[derive(Debug)]
pub struct ReportFacts {
    /// What tells the home of the reporter.
    pub reporter: HomeFacts,
    /// What tells the home of the author of the post.
    pub author: HomeFacts,
    /// Whether the reporter has reported the post before.
    pub already_reported: bool,
}

/// What becomes of a report that was read.
pub open spec fn report_kind_of(
    signature_ok: bool,
    sender_key: Seq<u8>,
    self_key: Seq<u8>,
    facts: ReportFacts,
) -> ReportResultKind {
    if !signature_ok {
        ReportResultKind::Rejected(ReportRejectReason::InvalidSignature)
    } else if current_home(facts.reporter, self_key) != Some(sender_key) {
        ReportResultKind::Rejected(ReportRejectReason::UnauthorizedReporter)
    } else if current_home(facts.author, self_key) != Some(self_key) {
        ReportResultKind::Rejected(ReportRejectReason::WrongRecipient)
    } else if facts.already_reported {
        ReportResultKind::Duplicate
    } else {
        ReportResultKind::Applied
    }
}

/// What becomes of an object that came out of its wire form.
pub open spec fn report_kind(
    parsed: Parsed,
    signature_ok: bool,
    sender_key: Seq<u8>,
    self_key: Seq<u8>,
    facts: ReportFacts,
) -> ReportResultKind {
    match parsed {
        Ok(SignedPayload::Report(_)) => report_kind_of(signature_ok, sender_key, self_key, facts),
        Ok(_) => ReportResultKind::Rejected(ReportRejectReason::SchemaInvalid),
        Err(ParseError::UnknownClass) => ReportResultKind::Rejected(
            ReportRejectReason::UnknownClass,
        ),
        Err(ParseError::Invalid) => ReportResultKind::Rejected(ReportRejectReason::SchemaInvalid),
    }
}

fn is_home(facts: &HomeFacts, self_key: &[u8; 32], key: &[u8; 32]) -> (yes: bool)
    ensures
        yes == (current_home(*facts, self_key@) == Some(key@)),
{
    match resolve_current_home(facts, self_key) {
        Some(home) => same_key(&home, key),
        None => false,
    }
}

/// What becomes of an object whose signature under the key of the reporter
/// held or did not hold.
pub fn judge_report(
    parsed: &Parsed,
    signature_ok: bool,
    sender_key: &[u8; 32],
    self_key: &[u8; 32],
    facts: &ReportFacts,
) -> (kind: ReportResultKind)
    ensures
        kind == report_kind(*parsed, signature_ok, sender_key@, self_key@, *facts),
{
    match parsed {
        Ok(SignedPayload::Report(_)) => {
            if !signature_ok {
                ReportResultKind::Rejected(ReportRejectReason::InvalidSignature)
            } else if !is_home(&facts.reporter, self_key, sender_key) {
                ReportResultKind::Rejected(ReportRejectReason::UnauthorizedReporter)
            } else if !is_home(&facts.author, self_key, self_key) {
                ReportResultKind::Rejected(ReportRejectReason::WrongRecipient)
            } else if facts.already_reported {
                ReportResultKind::Duplicate
            } else {
                ReportResultKind::Applied
            }
        },
        Ok(_) => ReportResultKind::Rejected(ReportRejectReason::SchemaInvalid),
        Err(ParseError::UnknownClass) => ReportResultKind::Rejected(
            ReportRejectReason::UnknownClass,
        ),
        Err(ParseError::Invalid) => ReportResultKind::Rejected(ReportRejectReason::SchemaInvalid),
    }
}

/// Whether the signature of a parsed report holds under the key of its
/// reporter.
pub open spec fn report_signature_ok(
    payload: Seq<u8>,
    signature: Seq<u8>,
    parsed: Parsed,
) -> bool {
    match parsed {
        Ok(SignedPayload::Report(r)) => crypto::ed25519_verifies(
            r.reporter@,
            payload,
            signature,
        ),
        _ => false,
    }
}

/// The row that queues a report for the moderators.
#[derive(Debug)]
pub struct ReportRow {
    pub post_id: [u8; 16],
    pub target_author: [u8; 32],
    pub reporter: [u8; 32],
    pub reason: String,
    pub detail: Option<String>,
    pub canonical_hash: [u8; 32],
    pub created_at: i64,
}

/// Whether `row` queues a report: all that it says, with its own hash and
/// timestamp.
pub open spec fn queues(row: ReportRow, r: Report, hash: Seq<u8>) -> bool {
    &&& row.post_id == r.post_id
    &&& row.target_author == r.target_author
    &&& row.reporter == r.reporter
    &&& row.reason@ == r.reason@
    &&& fields::optional_text(row.detail) == fields::optional_text(r.detail)
    &&& row.canonical_hash@ == hash
    &&& row.created_at == r.created_at as i64
}

fn report_row(r: &Report, hash: &[u8; 32]) -> (row: ReportRow)
    ensures
        queues(row, *r, hash@),
{
    ReportRow {
        post_id: r.post_id,
        target_author: r.target_author,
        reporter: r.reporter,
        reason: r.reason.clone(),
        detail: copy_optional_text(&r.detail),
        canonical_hash: *hash,
        created_at: r.created_at as i64,
    }
}

/// Takes one pushed object through the whole state machine, with the row to
/// queue where the report is applied.
pub fn apply_one_report(
    wire_bytes: &[u8],
    parsed: &Parsed,
    sender_key: &[u8; 32],
    self_key: &[u8; 32],
    facts: &ReportFacts,
) -> (applied: (ReportResult, Option<ReportRow>))
    ensures
        match wire::signed_object_in(wire_bytes@) {
            None => applied.0.canonical_hash@ == crypto::sha256_digest(wire_bytes@)
                && applied.0.status == ReportResultKind::Rejected(
                ReportRejectReason::SchemaInvalid,
            ),
            Some((payload, signature)) => {
                &&& applied.0.canonical_hash@ == crypto::sha256_digest(payload)
                &&& applied.0.status == report_kind(
                    *parsed,
                    report_signature_ok(payload, signature, *parsed),
                    sender_key@,
                    self_key@,
                    *facts,
                )
            },
        },
        match applied.1 {
            Some(row) => applied.0.status is Applied && (*parsed matches Ok(
                SignedPayload::Report(r),
            ) && queues(row, r, applied.0.canonical_hash@)),
            None => !(applied.0.status is Applied),
        },
{
    let object: Option<SignedObject> = decode_signed_object(wire_bytes);
    match &object {
        None => (reject(crypto::sha256(wire_bytes), ReportRejectReason::SchemaInvalid), None),
        Some(o) => {
            let canonical_hash: [u8; 32] = crypto::sha256(o.payload.as_slice());
            let signature_ok: bool = match parsed {
                Ok(SignedPayload::Report(r)) => crypto::signature_holds(
                    &r.reporter,
                    o.payload.as_slice(),
                    o.signature.as_slice(),
                ),
                _ => false,
            };
            let status: ReportResultKind = judge_report(
                parsed,
                signature_ok,
                sender_key,
                self_key,
                facts,
            );
            let row: Option<ReportRow> = match parsed {
                Ok(SignedPayload::Report(r)) => if matches!(status, ReportResultKind::Applied) {
                    Some(report_row(r, &canonical_hash))
                } else {
                    None
                },
                _ => None,
            };
            (PushResult { canonical_hash, status }, row)
        },
    }
}

/// The result of a report that is refused.
pub fn reject(canonical_hash: [u8; 32], reason: ReportRejectReason) -> (result: ReportResult)
    ensures
        result.canonical_hash == canonical_hash,
        result.status == ReportResultKind::Rejected(reason),
{
    PushResult { canonical_hash, status: ReportResultKind::Rejected(reason) }
}

/// The result of a report after the attempt to queue it: one that lost the
/// race against the same report queues nothing and is a duplicate.
pub fn queued_kind(rows_inserted: u64) -> (kind: ReportResultKind)
    ensures
        kind == (if rows_inserted == 0 {
            ReportResultKind::Duplicate
        } else {
            ReportResultKind::Applied
        }),
{
    if rows_inserted == 0 {
        ReportResultKind::Duplicate
    } else {
        ReportResultKind::Applied
    }
}

/// A report reaches the queue only where the reporter signed it, the sender
/// is the reporter's home and this instance is the home of the author.
pub proof fn law_reports_go_from_home_to_home(
    parsed: Parsed,
    signature_ok: bool,
    sender_key: Seq<u8>,
    self_key: Seq<u8>,
    facts: ReportFacts,
)
    requires
        report_kind(parsed, signature_ok, sender_key, self_key, facts) is Applied,
    ensures
        parsed matches Ok(SignedPayload::Report(_)),
        signature_ok,
        current_home(facts.reporter, self_key) == Some(sender_key),
        current_home(facts.author, self_key) == Some(self_key),
{
}

/// A user lives where their moves on record say, and where there is none of
/// them where their row says, which is here where it names no other instance.
pub proof fn law_moves_come_before_rows(
    facts: &HomeFacts,
    self_key: &[u8; 32],
    home: Option<[u8; 32]>,
)
    requires
        call_ensures(resolve_current_home, (facts, self_key), home),
    ensures
        facts.recorded matches Some(stored) ==> if stored@.len() == 32 {
            home matches Some(h) && h@ == stored@
        } else {
            home is None
        },
        facts.recorded is None && facts.row_home is None ==> home is None,
        facts.recorded is None && facts.row_home == Some(None::<Vec<u8>>) ==> (
        home matches Some(h) && h@ == self_key@),
        facts.recorded is None ==> (facts.row_home matches Some(Some(stored)) ==> if stored@.len()
            == 32 {
            home matches Some(h) && h@ == stored@
        } else {
            home is None
        }),
{
}

/// A report that its reporter signed, that comes from the reporter's home and
/// is about an author who lives here, is queued, unless the reporter has
/// reported the post before. Every other one is refused with its reason.
pub proof fn law_reports_to_the_right_home_are_queued(
    parsed: &Parsed,
    signature_ok: bool,
    sender_key: &[u8; 32],
    self_key: &[u8; 32],
    facts: &ReportFacts,
    kind: ReportResultKind,
    reporter_home: Option<[u8; 32]>,
    author_home: Option<[u8; 32]>,
)
    requires
        call_ensures(judge_report, (parsed, signature_ok, sender_key, self_key, facts), kind),
        call_ensures(resolve_current_home, (&facts.reporter, self_key), reporter_home),
        call_ensures(resolve_current_home, (&facts.author, self_key), author_home),
    ensures
        *parsed == Parsed::Err(ParseError::UnknownClass) ==> kind == ReportResultKind::Rejected(
            ReportRejectReason::UnknownClass,
        ),
        *parsed == Parsed::Err(ParseError::Invalid) ==> kind == ReportResultKind::Rejected(
            ReportRejectReason::SchemaInvalid,
        ),
        *parsed matches Ok(p) ==> !(p is Report) ==> kind == ReportResultKind::Rejected(
            ReportRejectReason::SchemaInvalid,
        ),
        *parsed matches Ok(SignedPayload::Report(_)) ==> {
            let from_home = reporter_home matches Some(h) && h@ == sender_key@;
            let to_home = author_home matches Some(h) && h@ == self_key@;
            &&& !signature_ok <==> kind == ReportResultKind::Rejected(
                ReportRejectReason::InvalidSignature,
            )
            &&& signature_ok && !from_home <==> kind == ReportResultKind::Rejected(
                ReportRejectReason::UnauthorizedReporter,
            )
            &&& signature_ok && from_home && !to_home <==> kind == ReportResultKind::Rejected(
                ReportRejectReason::WrongRecipient,
            )
            &&& signature_ok && from_home && to_home && facts.already_reported
                <==> kind is Duplicate
            &&& signature_ok && from_home && to_home && !facts.already_reported
                <==> kind is Applied
        },
{
}

/// A pushed report is queued only where its reporter signed the payload, and
/// what is queued is what it says, under the payload's hash.
pub proof fn law_what_is_queued_is_what_was_reported(
    wire_bytes: &[u8],
    parsed: &Parsed,
    sender_key: &[u8; 32],
    self_key: &[u8; 32],
    facts: &ReportFacts,
    applied: (ReportResult, Option<ReportRow>),
)
    requires
        call_ensures(
            apply_one_report,
            (wire_bytes, parsed, sender_key, self_key, facts),
            applied,
        ),
    ensures
        applied.1 is Some <==> applied.0.status is Applied,
        wire::signed_object_in(wire_bytes@) is None ==> applied.0.canonical_hash@
            == crypto::sha256_digest(wire_bytes@) && applied.0.status
            == ReportResultKind::Rejected(ReportRejectReason::SchemaInvalid),
        wire::signed_object_in(wire_bytes@) matches Some((payload, signature)) ==> {
            &&& applied.0.canonical_hash@ == crypto::sha256_digest(payload)
            &&& *parsed matches Ok(SignedPayload::Report(r)) ==> (applied.0.status
                == ReportResultKind::Rejected(ReportRejectReason::InvalidSignature)
                <==> !crypto::ed25519_verifies(r.reporter@, payload, signature))
            &&& applied.1 matches Some(row) ==> (*parsed matches Ok(SignedPayload::Report(r)) && {
                &&& crypto::ed25519_verifies(r.reporter@, payload, signature)
                &&& row.post_id == r.post_id
                &&& row.target_author == r.target_author
                &&& row.reporter == r.reporter
                &&& row.reason@ == r.reason@
                &&& row.detail is Some <==> r.detail is Some
                &&& r.detail matches Some(d) ==> row.detail->Some_0@ == d@
                &&& row.canonical_hash@ == crypto::sha256_digest(payload)
                &&& r.created_at <= i64::MAX ==> row.created_at == r.created_at
            })
        },
{
}

/// What became of a report is told in words: one for each outcome, and one for
/// each reason of a refusal.
pub proof fn law_outcomes_have_their_words(outcome: ReportResultKind)
    ensures
        outcome is Applied ==> outcome.status_text() == "applied"@,
        outcome is Duplicate ==> outcome.status_text() == "duplicate"@,
        outcome is Rejected ==> outcome.status_text() == "rejected"@,
        outcome.reason_text() is Some <==> outcome is Rejected,
        outcome matches ReportResultKind::Rejected(r) ==> outcome.reason_text()
            == Some(
            match r {
                ReportRejectReason::InvalidSignature => "invalid_signature"@,
                ReportRejectReason::SchemaInvalid => "schema_invalid"@,
                ReportRejectReason::UnauthorizedReporter => "unauthorized_reporter"@,
                ReportRejectReason::WrongRecipient => "wrong_recipient"@,
                ReportRejectReason::UnknownClass => "unknown_class"@,
            },
        ),
{
}

/// A report that found its like in the queue is a duplicate, and one that was
/// queued is applied; one that is refused says why.
pub proof fn law_queueing_settles_the_result(
    rows_inserted: u64,
    kind: ReportResultKind,
    hash: [u8; 32],
    reason: ReportRejectReason,
    refused: ReportResult,
)
    requires
        call_ensures(queued_kind, (rows_inserted,), kind),
        call_ensures(reject, (hash, reason), refused),
    ensures
        kind is Duplicate <==> rows_inserted == 0,
        kind is Applied <==> rows_inserted > 0,
        refused.canonical_hash == hash && refused.status == ReportResultKind::Rejected(reason),
{
}

} // verus!
