//! User-status claims pushed by the instances that make them: what becomes of
//! each of them.

use vstd::prelude::*;

use crate::bytes;
use crate::bytes::{key_from_slice, same_key};
use crate::crypto;
use crate::federation::fields;
use crate::federation::fields::copy_optional_text;
use crate::federation::latest_wins;
use crate::federation::latest_wins::{new_wins, CurrentClaim};
use crate::federation::push::{Outcome, PushResult};
use crate::federation::remote_users;
use crate::federation::remote_users::{resolve_home_at_t, MoveRecord};
use crate::federation::signed::{ParseError, Parsed, SignedObject, SignedPayload, UserStatus};
use crate::federation::wire;
use crate::federation::wire::decode_signed_object;
use crate::text::same_text;

verus! {

/// How many claims one push may carry.
pub const MAX_USER_STATUS_BATCH: usize = 256;

/// How many hashes one backfill may ask for.
pub const MAX_USER_STATUS_HASHES: usize = 50;

/// Why a claim is refused.
#[derive(Clone, Copy, Debug, PartialEq, Eq)]
pub enum UserStatusRejectReason {
    InvalidSignature,
    SchemaInvalid,
    UnauthorizedSigner,
    UnknownSubjectHome,
    UnknownClass,
}

/// What became of a claim.
#[derive(Clone, Copy, Debug, PartialEq, Eq)]
pub enum UserStatusResultKind {
    /// The claim is the one that stands.
    Applied,
    /// The claim is already stored.
    Duplicate,
    /// The claim that it follows is not stored.
    Deferred,
    /// The claim is stored, but another one stands over it.
    Superseded,
    Rejected(UserStatusRejectReason),
}

impl UserStatusRejectReason {
    /// The wire form of the reason.
    pub open spec fn text(&self) -> Seq<char> {
        match self {
            UserStatusRejectReason::InvalidSignature => "invalid_signature"@,
            UserStatusRejectReason::SchemaInvalid => "schema_invalid"@,
            UserStatusRejectReason::UnauthorizedSigner => "unauthorized_signer"@,
            UserStatusRejectReason::UnknownSubjectHome => "unknown_subject_home"@,
            UserStatusRejectReason::UnknownClass => "unknown_class"@,
        }
    }

    /// The wire form of the reason.
    pub fn as_str(&self) -> (tag: &'static str)
        ensures
            tag@ == self.text(),
    {
        match self {
            UserStatusRejectReason::InvalidSignature => "invalid_signature",
            UserStatusRejectReason::SchemaInvalid => "schema_invalid",
            UserStatusRejectReason::UnauthorizedSigner => "unauthorized_signer",
            UserStatusRejectReason::UnknownSubjectHome => "unknown_subject_home",
            UserStatusRejectReason::UnknownClass => "unknown_class",
        }
    }
}

impl Outcome for UserStatusResultKind {
    open spec fn status_text(&self) -> Seq<char> {
        match self {
            UserStatusResultKind::Applied => "applied"@,
            UserStatusResultKind::Duplicate => "duplicate"@,
            UserStatusResultKind::Deferred => "deferred"@,
            UserStatusResultKind::Superseded => "superseded"@,
            UserStatusResultKind::Rejected(_) => "rejected"@,
        }
    }

    open spec fn reason_text(&self) -> Option<Seq<char>> {
        match self {
            UserStatusResultKind::Rejected(r) => Some(r.text()),
            _ => None,
        }
    }

    fn status_tag(&self) -> (tag: &'static str) {
        match self {
            UserStatusResultKind::Applied => "applied",
            UserStatusResultKind::Duplicate => "duplicate",
            UserStatusResultKind::Deferred => "deferred",
            UserStatusResultKind::Superseded => "superseded",
            UserStatusResultKind::Rejected(_) => "rejected",
        }
    }

    fn reason_tag(&self) -> (tag: Option<&'static str>) {
        match self {
            UserStatusResultKind::Rejected(r) => Some(r.as_str()),
            _ => None,
        }
    }
}

/// The result of one claim.
pub type UserStatusResult = PushResult<UserStatusResultKind>;

/// What the store holds about the home of a subject.
#[derive(Debug)]
pub struct SubjectFacts {
    /// The moves of the subject on record.
    pub chain: Vec<MoveRecord>,
    /// The home in the subject's row, if there is a row; a row without one
    /// belongs to this instance.
    pub row_home: Option<Option<Vec<u8>>>,
}

/// The home that a user's row names, if there is a row and its home has the
/// form of a key: this instance where it names none.
pub open spec fn registered_home(row_home: Option<Option<Vec<u8>>>, self_key: Seq<u8>) -> Option<
    Seq<u8>,
> {
    match row_home {
        None => None,
        Some(None) => Some(self_key),
        Some(Some(home)) => if home@.len() == 32 {
            Some(home@)
        } else {
            None
        },
    }
}

/// The home that a user's row names.
pub fn registered_home_of(row_home: &Option<Option<Vec<u8>>>, self_key: &[u8; 32]) -> (home:
    Option<[u8; 32]>)
    ensures
        match home {
            Some(h) => registered_home(*row_home, self_key@) == Some(h@),
            None => registered_home(*row_home, self_key@) is None,
        },
{
    match row_home {
        None => None,
        Some(None) => Some(*self_key),
        Some(Some(home)) => key_from_slice(home.as_slice()),
    }
}

/// Thirty-two zero bytes, which no instance has as its key.
pub open spec fn no_key() -> Seq<u8> {
    Seq::new(32, |i: int| 0u8)
}

/// Whether `home` is where the subject lived at `t`: by the chain of moves
/// where there is one, with none where it cannot be read, and by the
/// subject's row otherwise.
pub open spec fn is_subject_home(
    facts: SubjectFacts,
    self_key: Seq<u8>,
    t: u64,
    home: Option<Seq<u8>>,
) -> bool {
    if facts.chain@.len() > 0 {
        exists|h: Seq<u8>|
            #[trigger] remote_users::is_home_at(facts.chain@, t, no_key(), h) && home == (if h
                == no_key() {
                None
            } else {
                Some(h)
            })
    } else {
        home == registered_home(facts.row_home, self_key)
    }
}

/// The view of an optional key.
pub open spec fn key_view(key: Option<[u8; 32]>) -> Option<Seq<u8>> {
    match key {
        Some(k) => Some(k@),
        None => None,
    }
}

/// Where the subject of a claim lived when the claim was made.
pub fn resolve_subject_home_at_t(facts: &SubjectFacts, self_key: &[u8; 32], t: u64) -> (home:
    Option<[u8; 32]>)
    ensures
        is_subject_home(*facts, self_key@, t, key_view(home)),
{
    if facts.chain.len() > 0 {
        let sentinel: [u8; 32] = [0u8; 32];
        assert(sentinel@ =~= no_key());
        let home: [u8; 32] = resolve_home_at_t(&facts.chain, t, &sentinel);
        assert(remote_users::is_home_at(facts.chain@, t, no_key(), home@));
        if same_key(&home, &sentinel) {
            None
        } else {
            Some(home)
        }
    } else {
        registered_home_of(&facts.row_home, self_key)
    }
}

/// What the store holds that bears on one claim.
#[derive(Debug)]
pub struct UserStatusFacts {
    /// Whether the claim's hash is stored and, where it is, whether its
    /// payload is gone.
    pub stored_payload_gone: Option<bool>,
    /// What tells where the subject lived when the claim was made.
    pub subject: SubjectFacts,
    /// Whether the claim that this one follows is stored.
    pub prior_stored: bool,
    /// The claim that stands for the subject so far.
    pub current: Option<CurrentClaim>,
}

/// What becomes of a claim that is new here, about a subject who lived at
/// `home` when it was made.
pub open spec fn new_claim_kind(
    s: UserStatus,
    hash: Seq<u8>,
    signature_ok: bool,
    sender_key: Seq<u8>,
    sender_domain: Seq<char>,
    home: Option<Seq<u8>>,
    facts: UserStatusFacts,
) -> UserStatusResultKind {
    if !signature_ok {
        UserStatusResultKind::Rejected(UserStatusRejectReason::InvalidSignature)
    } else if s.signing_instance@ != sender_domain {
        UserStatusResultKind::Rejected(UserStatusRejectReason::UnauthorizedSigner)
    } else if home is None {
        UserStatusResultKind::Rejected(UserStatusRejectReason::UnknownSubjectHome)
    } else if home->Some_0 != sender_key {
        UserStatusResultKind::Rejected(UserStatusRejectReason::UnauthorizedSigner)
    } else if s.prior_status_hash is Some && !facts.prior_stored {
        UserStatusResultKind::Deferred
    } else if latest_wins::wins(
        latest_wins::Claim { created_at: s.created_at, hash },
        latest_wins::stored_claim(facts.current),
    ) {
        UserStatusResultKind::Applied
    } else {
        UserStatusResultKind::Superseded
    }
}

/// What becomes of an object that came out of its wire form. `home` is where
/// its subject lived when it was made.
pub open spec fn claim_kind(
    parsed: Parsed,
    hash: Seq<u8>,
    signature_ok: bool,
    sender_key: Seq<u8>,
    sender_domain: Seq<char>,
    home: Option<Seq<u8>>,
    facts: UserStatusFacts,
) -> UserStatusResultKind {
    match facts.stored_payload_gone {
        Some(gone) => if gone {
            UserStatusResultKind::Rejected(UserStatusRejectReason::SchemaInvalid)
        } else {
            UserStatusResultKind::Duplicate
        },
        None => match parsed {
            Ok(SignedPayload::UserStatus(s)) => new_claim_kind(
                s,
                hash,
                signature_ok,
                sender_key,
                sender_domain,
                home,
                facts,
            ),
            Ok(_) => UserStatusResultKind::Rejected(UserStatusRejectReason::SchemaInvalid),
            Err(ParseError::UnknownClass) => UserStatusResultKind::Rejected(
                UserStatusRejectReason::UnknownClass,
            ),
            Err(ParseError::Invalid) => UserStatusResultKind::Rejected(
                UserStatusRejectReason::SchemaInvalid,
            ),
        },
    }
}

/// Whether `home` is where the subject of a parsed claim lived at the time
/// that the claim bears.
pub open spec fn is_home_for(
    parsed: Parsed,
    self_key: Seq<u8>,
    facts: UserStatusFacts,
    home: Option<Seq<u8>>,
) -> bool {
    parsed matches Ok(SignedPayload::UserStatus(s)) ==> is_subject_home(
        facts.subject,
        self_key,
        s.created_at,
        home,
    )
}

/// Whether `kind` is what becomes of an object that came out of its wire form,
/// by where its subject lived when it was made.
pub open spec fn is_claim_kind(
    kind: UserStatusResultKind,
    parsed: Parsed,
    hash: Seq<u8>,
    signature_ok: bool,
    sender_key: Seq<u8>,
    sender_domain: Seq<char>,
    self_key: Seq<u8>,
    facts: UserStatusFacts,
) -> bool {
    exists|home: Option<Seq<u8>>| #[trigger]
        is_home_for(parsed, self_key, facts, home) && kind == claim_kind(
            parsed,
            hash,
            signature_ok,
            sender_key,
            sender_domain,
            home,
            facts,
        )
}

fn judge_new_claim(
    s: &UserStatus,
    hash: &[u8; 32],
    signature_ok: bool,
    sender_key: &[u8; 32],
    sender_domain: &str,
    home: &Option<[u8; 32]>,
    facts: &UserStatusFacts,
) -> (kind: UserStatusResultKind)
    ensures
        kind == new_claim_kind(
            *s,
            hash@,
            signature_ok,
            sender_key@,
            sender_domain@,
            key_view(*home),
            *facts,
        ),
{
    if !signature_ok {
        return UserStatusResultKind::Rejected(UserStatusRejectReason::InvalidSignature);
    }
    if !same_text(s.signing_instance.as_str(), sender_domain) {
        return UserStatusResultKind::Rejected(UserStatusRejectReason::UnauthorizedSigner);
    }
    match home {
        None => {
            return UserStatusResultKind::Rejected(UserStatusRejectReason::UnknownSubjectHome);
        },
        Some(home_key) => {
            if !same_key(home_key, sender_key) {
                return UserStatusResultKind::Rejected(UserStatusRejectReason::UnauthorizedSigner);
            }
        },
    }
    if s.prior_status_hash.is_some() && !facts.prior_stored {
        return UserStatusResultKind::Deferred;
    }
    if new_wins(s.created_at, hash, &facts.current) {
        UserStatusResultKind::Applied
    } else {
        UserStatusResultKind::Superseded
    }
}

/// What becomes of an object whose hash is `hash` and whose signature under
/// the key of the sender held or did not hold.
pub fn judge_user_status(
    parsed: &Parsed,
    hash: &[u8; 32],
    signature_ok: bool,
    sender_key: &[u8; 32],
    sender_domain: &str,
    self_key: &[u8; 32],
    facts: &UserStatusFacts,
) -> (kind: UserStatusResultKind)
    ensures
        is_claim_kind(
            kind,
            *parsed,
            hash@,
            signature_ok,
            sender_key@,
            sender_domain@,
            self_key@,
            *facts,
        ),
{
    let home: Option<[u8; 32]> = match parsed {
        Ok(SignedPayload::UserStatus(s)) => resolve_subject_home_at_t(
            &facts.subject,
            self_key,
            s.created_at,
        ),
        _ => None,
    };
    assert(is_home_for(*parsed, self_key@, *facts, key_view(home)));
    match facts.stored_payload_gone {
        Some(gone) => if gone {
            UserStatusResultKind::Rejected(UserStatusRejectReason::SchemaInvalid)
        } else {
            UserStatusResultKind::Duplicate
        },
        None => match parsed {
            Ok(SignedPayload::UserStatus(s)) => judge_new_claim(
                s,
                hash,
                signature_ok,
                sender_key,
                sender_domain,
                &home,
                facts,
            ),
            Ok(_) => UserStatusResultKind::Rejected(UserStatusRejectReason::SchemaInvalid),
            Err(ParseError::UnknownClass) => UserStatusResultKind::Rejected(
                UserStatusRejectReason::UnknownClass,
            ),
            Err(ParseError::Invalid) => UserStatusResultKind::Rejected(
                UserStatusRejectReason::SchemaInvalid,
            ),
        },
    }
}

/// The row that records the claim that stands for a user.
#[derive(Debug)]
pub struct UserStatusRow {
    pub subject: [u8; 32],
    pub status: &'static str,
    pub suspended_until: Option<i64>,
    pub signing_instance: String,
    pub reason: Option<String>,
    pub created_at: i64,
    pub hash: [u8; 32],
}

/// Whether `row` records a claim of an instance: what the claim says, under
/// the instance's domain on record, with its own hash and timestamp.
pub open spec fn records_claim(
    row: UserStatusRow,
    s: UserStatus,
    domain: Seq<char>,
    hash: Seq<u8>,
) -> bool {
    &&& row.subject == s.subject
    &&& row.status@ == s.status.text()
    &&& row.suspended_until == (match s.suspended_until {
        Some(until) => Some(until as i64),
        None => None,
    })
    &&& row.signing_instance@ == domain
    &&& fields::optional_text(row.reason) == fields::optional_text(s.reason)
    &&& row.created_at == s.created_at as i64
    &&& row.hash@ == hash
}

fn status_row(s: &UserStatus, domain: &str, hash: &[u8; 32]) -> (row: UserStatusRow)
    ensures
        records_claim(row, *s, domain@, hash@),
{
    UserStatusRow {
        subject: s.subject,
        status: s.status.as_str(),
        suspended_until: match s.suspended_until {
            Some(until) => Some(until as i64),
            None => None,
        },
        signing_instance: domain.to_string(),
        reason: copy_optional_text(&s.reason),
        created_at: s.created_at as i64,
        hash: *hash,
    }
}

/// What to do about one claim.
#[derive(Debug)]
pub struct UserStatusVerdict {
    /// Store the bytes.
    pub persist: bool,
    /// Record this as the claim that stands.
    pub row: Option<UserStatusRow>,
}

/// Whether `verdict` is what follows from the result of a claim: the object is
/// stored exactly when it ends as applied or superseded, and an applied one
/// becomes the claim that stands.
pub open spec fn follows(
    verdict: UserStatusVerdict,
    result: UserStatusResult,
    parsed: Parsed,
    domain: Seq<char>,
) -> bool {
    &&& verdict.persist <==> result.status is Applied || result.status is Superseded
    &&& match verdict.row {
        Some(row) => result.status is Applied && (parsed matches Ok(SignedPayload::UserStatus(s))
            && records_claim(row, s, domain, result.canonical_hash@)),
        None => !(result.status is Applied),
    }
}

/// Takes one pushed object through the whole state machine. The claim is
/// checked against the key of the peer that pushed it: it is the one that
/// made it, for these claims are not passed on.
pub fn apply_one_user_status(
    wire_bytes: &[u8],
    parsed: &Parsed,
    sender_key: &[u8; 32],
    sender_domain: &str,
    self_key: &[u8; 32],
    facts: &UserStatusFacts,
) -> (applied: (UserStatusResult, UserStatusVerdict))
    ensures
        match wire::signed_object_in(wire_bytes@) {
            None => applied.0.canonical_hash@ == crypto::sha256_digest(wire_bytes@)
                && applied.0.status == UserStatusResultKind::Rejected(
                UserStatusRejectReason::SchemaInvalid,
            ),
            Some((payload, signature)) => {
                &&& applied.0.canonical_hash@ == crypto::sha256_digest(payload)
                &&& is_claim_kind(
                    applied.0.status,
                    *parsed,
                    crypto::sha256_digest(payload),
                    crypto::ed25519_verifies(sender_key@, payload, signature),
                    sender_key@,
                    sender_domain@,
                    self_key@,
                    *facts,
                )
            },
        },
        follows(applied.1, applied.0, *parsed, sender_domain@),
{
    let object: Option<SignedObject> = decode_signed_object(wire_bytes);
    match &object {
        None => (
            PushResult {
                canonical_hash: crypto::sha256(wire_bytes),
                status: UserStatusResultKind::Rejected(UserStatusRejectReason::SchemaInvalid),
            },
            UserStatusVerdict { persist: false, row: None },
        ),
        Some(o) => {
            let hash: [u8; 32] = crypto::sha256(o.payload.as_slice());
            let signature_ok: bool = crypto::signature_holds(
                sender_key,
                o.payload.as_slice(),
                o.signature.as_slice(),
            );
            let status: UserStatusResultKind = judge_user_status(
                parsed,
                &hash,
                signature_ok,
                sender_key,
                sender_domain,
                self_key,
                facts,
            );
            let row: Option<UserStatusRow> = match parsed {
                Ok(SignedPayload::UserStatus(s)) => if matches!(
                    status,
                    UserStatusResultKind::Applied
                ) {
                    Some(status_row(s, sender_domain, &hash))
                } else {
                    None
                },
                _ => None,
            };
            let persist: bool = matches!(
                status,
                UserStatusResultKind::Applied | UserStatusResultKind::Superseded
            );
            (PushResult { canonical_hash: hash, status }, UserStatusVerdict { persist, row })
        },
    }
}

/// A claim is only ever stored where the sender signed it, named itself as
/// its maker and was the subject's home when it was made.
pub proof fn law_only_the_home_is_heard(
    kind: UserStatusResultKind,
    parsed: Parsed,
    hash: Seq<u8>,
    signature_ok: bool,
    sender_key: Seq<u8>,
    sender_domain: Seq<char>,
    self_key: Seq<u8>,
    facts: UserStatusFacts,
)
    requires
        is_claim_kind(
            kind,
            parsed,
            hash,
            signature_ok,
            sender_key,
            sender_domain,
            self_key,
            facts,
        ),
        kind is Applied || kind is Superseded || kind is Deferred,
    ensures
        signature_ok,
        parsed matches Ok(SignedPayload::UserStatus(s)) && s.signing_instance@ == sender_domain
            && is_subject_home(facts.subject, self_key, s.created_at, Some(sender_key)),
{
}

/// Where no move of a subject is on record, the subject lives where their row
/// says, which is here where it names no other instance. One without a row, or
/// with a row that names no key, lives nowhere that is known.
pub proof fn law_a_row_tells_the_home(
    facts: &SubjectFacts,
    self_key: &[u8; 32],
    t: u64,
    home: Option<[u8; 32]>,
)
    requires
        call_ensures(resolve_subject_home_at_t, (facts, self_key, t), home),
        facts.chain@.len() == 0,
    ensures
        facts.row_home is None ==> home is None,
        facts.row_home == Some(None::<Vec<u8>>) ==> (home matches Some(h) && h@ == self_key@),
        facts.row_home matches Some(Some(stored)) ==> if stored@.len() == 32 {
            home matches Some(h) && h@ == stored@
        } else {
            home is None
        },
{
}

/// A subject who moved lived, at a time, where the last move until then led
/// to, or where the first move started before all of them, whatever the row
/// says. A move that cannot be read tells no home.
pub proof fn law_moves_tell_the_home(
    facts: &SubjectFacts,
    self_key: &[u8; 32],
    t: u64,
    home: Option<[u8; 32]>,
    i: int,
)
    requires
        call_ensures(resolve_subject_home_at_t, (facts, self_key, t), home),
        remote_users::comes_last(facts.chain@, i, t) || (remote_users::comes_first(
            facts.chain@,
            i,
        ) && facts.chain@[i].created_at > t),
    ensures
        facts.chain@[i].ends is None ==> home is None,
        facts.chain@[i].ends matches Some(ends) ==> {
            let end = if facts.chain@[i].created_at > t {
                ends.from_instance_key@
            } else {
                ends.to_instance_key@
            };
            end != Seq::new(32, |k: int| 0u8) ==> (home matches Some(h) && h@ == end)
        },
{
    let chain = facts.chain@;
    let u = remote_users::stored_time(t);
    let h = choose|h: Seq<u8>|
        #[trigger] remote_users::is_home_at(chain, t, no_key(), h) && key_view(home) == (if h
            == no_key() {
            None
        } else {
            Some(h)
        });
    if chain[i].created_at <= t {
        assert(chain[i].created_at <= u);
        let k = choose|k: int|
            #[trigger] remote_users::is_last_until(chain, k, u) && h == (match chain[k].ends {
                Some(ends) => ends.to_instance_key@,
                None => no_key(),
            });
        if k != i {
            assert(chain[k].created_at <= t);
            assert(chain[i].created_at <= chain[k].created_at);
        }
    } else {
        assert forall|j: int| 0 <= j < chain.len() implies (#[trigger] chain[j]).created_at > u by {
            if j != i {
                assert(chain[i].created_at <= chain[j].created_at);
            }
        }
        let k = choose|k: int|
            #[trigger] remote_users::is_first(chain, k) && h == (match chain[k].ends {
                Some(ends) => ends.from_instance_key@,
                None => no_key(),
            });
        if k != i {
            assert(chain[k].created_at <= chain[i].created_at);
        }
    }
}

proof fn lemma_home_is_one(
    facts: SubjectFacts,
    self_key: Seq<u8>,
    t: u64,
    a: Option<Seq<u8>>,
    b: Option<Seq<u8>>,
)
    requires
        forall|i: int, j: int|
            #![trigger facts.chain@[i], facts.chain@[j]]
            0 <= i < j < facts.chain@.len() ==> facts.chain@[i].canonical_hash@
                != facts.chain@[j].canonical_hash@,
        is_subject_home(facts, self_key, t, a),
        is_subject_home(facts, self_key, t, b),
    ensures
        a == b,
{
    if facts.chain@.len() > 0 {
        let g = choose|h: Seq<u8>|
            #[trigger] remote_users::is_home_at(facts.chain@, t, no_key(), h) && a == (if h
                == no_key() {
                None
            } else {
                Some(h)
            });
        let h = choose|h: Seq<u8>|
            #[trigger] remote_users::is_home_at(facts.chain@, t, no_key(), h) && b == (if h
                == no_key() {
                None
            } else {
                Some(h)
            });
        remote_users::law_home_at_is_fixed_by_the_chain(facts.chain@, t, no_key(), g, h);
    }
}

/// A claim that is new here and that the subject's home of its time signed and
/// made under the domain on record for it is stored, unless it follows a claim
/// that is not: it then waits for that one. It becomes the claim that stands
/// exactly where none stands yet, or it is later than the one that does, or as
/// late with a smaller hash. Every other new claim is refused with its reason.
/// The moves of a subject differ in their hashes.
pub proof fn law_claims_of_the_home_are_heard(
    s: UserStatus,
    hash: &[u8; 32],
    signature_ok: bool,
    sender_key: &[u8; 32],
    sender_domain: &str,
    self_key: &[u8; 32],
    facts: &UserStatusFacts,
    kind: UserStatusResultKind,
    home: Option<[u8; 32]>,
)
    requires
        call_ensures(
            judge_user_status,
            (
                &Ok(SignedPayload::UserStatus(s)),
                hash,
                signature_ok,
                sender_key,
                sender_domain,
                self_key,
                facts,
            ),
            kind,
        ),
        call_ensures(resolve_subject_home_at_t, (&facts.subject, self_key, s.created_at), home),
        facts.stored_payload_gone is None,
        forall|i: int, j: int|
            #![trigger facts.subject.chain@[i], facts.subject.chain@[j]]
            0 <= i < j < facts.subject.chain@.len() ==> facts.subject.chain@[i].canonical_hash@
                != facts.subject.chain@[j].canonical_hash@,
    ensures
        ({
            let named = s.signing_instance@ == sender_domain@;
            let at_home = home matches Some(h) && h@ == sender_key@;
            &&& !signature_ok ==> kind == UserStatusResultKind::Rejected(
                UserStatusRejectReason::InvalidSignature,
            )
            &&& signature_ok && !named ==> kind == UserStatusResultKind::Rejected(
                UserStatusRejectReason::UnauthorizedSigner,
            )
            &&& signature_ok && named && home is None ==> kind == UserStatusResultKind::Rejected(
                UserStatusRejectReason::UnknownSubjectHome,
            )
            &&& signature_ok && named && home is Some && !at_home ==> kind
                == UserStatusResultKind::Rejected(UserStatusRejectReason::UnauthorizedSigner)
            &&& signature_ok && named && at_home && s.prior_status_hash is Some
                && !facts.prior_stored ==> kind is Deferred
            &&& signature_ok && named && at_home && (s.prior_status_hash is None
                || facts.prior_stored) ==> {
                &&& facts.current is None ==> kind is Applied
                &&& facts.current matches Some(c) ==> {
                    &&& c.created_at < s.created_at && s.created_at > 0 ==> kind is Applied
                    &&& c.created_at > s.created_at ==> kind is Superseded
                    &&& c.created_at == s.created_at ==> if bytes::lex_less(hash@, c.hash@) {
                        kind is Applied
                    } else {
                        kind is Superseded
                    }
                }
            }
        }),
{
    let parsed: Parsed = Ok(SignedPayload::UserStatus(s));
    let chosen = choose|h: Option<Seq<u8>>| #[trigger]
        is_home_for(parsed, self_key@, *facts, h) && kind == claim_kind(
            parsed,
            hash@,
            signature_ok,
            sender_key@,
            sender_domain@,
            h,
            *facts,
        );
    lemma_home_is_one(facts.subject, self_key@, s.created_at, chosen, key_view(home));
}

/// An object that is stored already is a duplicate, one whose payload was
/// erased is refused, and so is one that is no claim about a user.
pub proof fn law_other_objects_are_not_heard(
    parsed: &Parsed,
    hash: &[u8; 32],
    signature_ok: bool,
    sender_key: &[u8; 32],
    sender_domain: &str,
    self_key: &[u8; 32],
    facts: &UserStatusFacts,
    kind: UserStatusResultKind,
)
    requires
        call_ensures(
            judge_user_status,
            (parsed, hash, signature_ok, sender_key, sender_domain, self_key, facts),
            kind,
        ),
    ensures
        facts.stored_payload_gone == Some(false) ==> kind is Duplicate,
        facts.stored_payload_gone == Some(true) ==> kind == UserStatusResultKind::Rejected(
            UserStatusRejectReason::SchemaInvalid,
        ),
        facts.stored_payload_gone is None ==> {
            &&& *parsed == Parsed::Err(ParseError::UnknownClass) ==> kind
                == UserStatusResultKind::Rejected(UserStatusRejectReason::UnknownClass)
            &&& *parsed == Parsed::Err(ParseError::Invalid) ==> kind
                == UserStatusResultKind::Rejected(UserStatusRejectReason::SchemaInvalid)
            &&& *parsed matches Ok(p) ==> !(p is UserStatus) ==> kind
                == UserStatusResultKind::Rejected(UserStatusRejectReason::SchemaInvalid)
            &&& !(kind is Duplicate)
        },
{
}

/// A pushed claim is stored only where its sender signed the payload, and only
/// where it is stored can it be recorded. What is recorded is what it says,
/// under the sender's domain and the payload's hash. What has not the frame of
/// a signed object is refused.
pub proof fn law_what_stands_is_what_was_claimed(
    wire_bytes: &[u8],
    parsed: &Parsed,
    sender_key: &[u8; 32],
    sender_domain: &str,
    self_key: &[u8; 32],
    facts: &UserStatusFacts,
    applied: (UserStatusResult, UserStatusVerdict),
)
    requires
        call_ensures(
            apply_one_user_status,
            (wire_bytes, parsed, sender_key, sender_domain, self_key, facts),
            applied,
        ),
    ensures
        applied.1.persist <==> applied.0.status is Applied || applied.0.status is Superseded,
        applied.1.row is Some <==> applied.0.status is Applied,
        wire::signed_object_in(wire_bytes@) is None ==> applied.0.canonical_hash@
            == crypto::sha256_digest(wire_bytes@) && applied.0.status
            == UserStatusResultKind::Rejected(UserStatusRejectReason::SchemaInvalid),
        wire::signed_object_in(wire_bytes@) matches Some((payload, signature)) ==> {
            &&& applied.0.canonical_hash@ == crypto::sha256_digest(payload)
            &&& applied.1.persist ==> crypto::ed25519_verifies(sender_key@, payload, signature)
            &&& facts.stored_payload_gone is None && (*parsed matches Ok(
                SignedPayload::UserStatus(_),
            )) ==> (applied.0.status == UserStatusResultKind::Rejected(
                UserStatusRejectReason::InvalidSignature,
            ) <==> !crypto::ed25519_verifies(sender_key@, payload, signature))
            &&& applied.1.row matches Some(row) ==> (*parsed matches Ok(
                SignedPayload::UserStatus(s),
            ) && {
                &&& row.subject == s.subject
                &&& s.status is Active ==> row.status@ == "active"@
                &&& s.status is Suspended ==> row.status@ == "suspended"@
                &&& s.status is Banned ==> row.status@ == "banned"@
                &&& row.suspended_until is Some <==> s.suspended_until is Some
                &&& s.suspended_until matches Some(until) ==> until <= i64::MAX
                    ==> row.suspended_until == Some(until as i64)
                &&& row.signing_instance@ == sender_domain@
                &&& row.reason is Some <==> s.reason is Some
                &&& s.reason matches Some(r) ==> row.reason->Some_0@ == r@
                &&& s.created_at <= i64::MAX ==> row.created_at == s.created_at
                &&& row.hash@ == crypto::sha256_digest(payload)
            })
        },
{
    assert(fields::optional_text(None::<String>) is None);
}

/// What became of a claim is told in words: one for each outcome, and one for
/// each reason of a refusal.
pub proof fn law_outcomes_have_their_words(outcome: UserStatusResultKind)
    ensures
        outcome is Applied ==> outcome.status_text() == "applied"@,
        outcome is Duplicate ==> outcome.status_text() == "duplicate"@,
        outcome is Deferred ==> outcome.status_text() == "deferred"@,
        outcome is Superseded ==> outcome.status_text() == "superseded"@,
        outcome is Rejected ==> outcome.status_text() == "rejected"@,
        outcome.reason_text() is Some <==> outcome is Rejected,
        outcome matches UserStatusResultKind::Rejected(r) ==> outcome.reason_text()
            == Some(
            match r {
                UserStatusRejectReason::InvalidSignature => "invalid_signature"@,
                UserStatusRejectReason::SchemaInvalid => "schema_invalid"@,
                UserStatusRejectReason::UnauthorizedSigner => "unauthorized_signer"@,
                UserStatusRejectReason::UnknownSubjectHome => "unknown_subject_home"@,
                UserStatusRejectReason::UnknownClass => "unknown_class"@,
            },
        ),
{
}

/// The home that a user's row names is this instance where it names none, and
/// nothing where there is no row or what it names is no key.
pub proof fn law_rows_name_the_home(
    row_home: &Option<Option<Vec<u8>>>,
    self_key: &[u8; 32],
    home: Option<[u8; 32]>,
)
    requires
        call_ensures(registered_home_of, (row_home, self_key), home),
    ensures
        *row_home is None ==> home is None,
        *row_home matches Some(named) ==> match named {
            None => home matches Some(h) && h@ == self_key@,
            Some(key) => if key@.len() == 32 {
                home matches Some(h) && h@ == key@
            } else {
                home is None
            },
        },
{
}

} // verus!
