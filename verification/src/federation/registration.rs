//! The ceremony by which a user takes a key that they hold to this instance:
//! the challenge that they sign, and what their answer has to meet.

use vstd::prelude::*;
use vstd::utf8::*;

use crate::base64_text;
use crate::base64_text::{from_base64, to_base64};
use crate::bytes::{key_from_slice, same_bytes, same_key};
use crate::clock::now_ms;
use crate::crypto;
use crate::crypto::{key_is_valid, public_key_of, signature_holds};
use crate::error;
use crate::error::{AppError, ErrorCode, Failure};
use crate::federation::signed::{Move, Parsed, RegistrationChallenge, SignedPayload};
use crate::random::random_32;
use crate::text;
use crate::text::{read_hex32, same_text};

verus! {

/// How long a challenge may be answered.
pub const REGISTRATION_CHALLENGE_TTL_MS: u64 = 600_000;

/// How long the nonce of a challenge is.
pub const REGISTRATION_NONCE_BYTES: usize = 32;

/// What a user asks for at the start of the ceremony.
#[derive(Debug)]
pub struct BeginRequest {
    pub display_name: String,
    /// The public key, in hexadecimal.
    pub user_key: String,
}

/// What the user is handed.
#[derive(Debug)]
pub struct BeginResponse {
    pub challenge_id: String,
    /// The bytes to sign, in base64.
    pub registration_challenge: String,
}

/// What the user comes back with.
#[derive(Debug)]
pub struct CompleteRequest {
    pub challenge_id: String,
    /// The bytes that were signed, in base64.
    pub registration_challenge: String,
    /// The signature, in base64.
    pub signature: String,
    /// The private key, in base64.
    pub private_key: String,
    /// The instance that the user comes from, where they name one.
    pub move_from_domain: Option<String>,
}

/// Reads 32 bytes from 64 hexadecimal digits of either case.
pub fn decode_hex32(s: &str) -> (bytes: Option<[u8; 32]>)
    ensures
        match bytes {
            Some(k) => text::unhex32(encode_utf8(s@), true) == Some(k@),
            None => text::unhex32(encode_utf8(s@), true) is None,
        },
{
    read_hex32(s.as_bytes(), true)
}

/// What was found out about a request to begin.
#[derive(Clone, Copy, Debug)]
pub struct BeginFacts {
    /// What is wrong with the name, if anything is.
    pub name_error: Option<&'static str>,
    /// Whether a user has the name, or one that looks like it.
    pub name_taken: bool,
    /// Whether a user has the key.
    pub key_taken: bool,
}

/// Why the ceremony does not begin, if it does not.
pub open spec fn begin_refusal(user_key: Seq<char>, facts: BeginFacts) -> Option<Failure> {
    if let Some(message) = facts.name_error {
        Some(error::told(ErrorCode::InvalidDisplayName, message@))
    } else if text::unhex32(encode_utf8(user_key), true) is None {
        Some(error::told(ErrorCode::BadRequest, "invalid user_key"@))
    } else if facts.name_taken {
        Some(error::failure(ErrorCode::DisplayNameTaken))
    } else if facts.key_taken {
        Some(error::told(ErrorCode::BadRequest, "user_key_taken"@))
    } else {
        None
    }
}

/// Whether `challenge` is what the ceremony begins with: a challenge that
/// binds the user's key to this instance, its domain, a nonce and the time, or
/// the refusal.
pub open spec fn is_beginning(
    challenge: Result<RegistrationChallenge, AppError>,
    user_key: Seq<char>,
    facts: BeginFacts,
    dest_instance_key: Seq<u8>,
    dest_domain: Seq<char>,
    nonce: Seq<u8>,
    now_ms: u64,
) -> bool {
    match challenge {
        Ok(c) => {
            &&& begin_refusal(user_key, facts) is None
            &&& text::unhex32(encode_utf8(user_key), true) == Some(c.user_key@)
            &&& c.dest_instance_key@ == dest_instance_key
            &&& c.dest_domain@ == dest_domain
            &&& c.nonce@ == nonce
            &&& c.created_at == now_ms
        },
        Err(e) => begin_refusal(user_key, facts) == Some(e@),
    }
}

/// Begins the ceremony, with a fresh nonce and at this time. It fails without
/// a beginning where the system has no randomness to give.
pub fn begin(
    request: &BeginRequest,
    facts: &BeginFacts,
    dest_instance_key: &[u8; 32],
    dest_domain: &str,
) -> (challenge: Result<RegistrationChallenge, AppError>)
    ensures
        begin_refusal(request.user_key@, *facts) is Some ==> refusal_of(challenge)
            == begin_refusal(request.user_key@, *facts),
        begin_refusal(request.user_key@, *facts) is None ==> (refusal_of(challenge) == Some(
            error::failure(ErrorCode::Internal),
        ) || exists|nonce: Seq<u8>, now_ms: u64| #[trigger]
            is_beginning(
                challenge,
                request.user_key@,
                *facts,
                dest_instance_key@,
                dest_domain@,
                nonce,
                now_ms,
            )),
{
    let now: u64 = now_ms();
    let blank: [u8; 32] = [0u8; 32];
    let nonce: Option<[u8; 32]> = random_32();
    let drawn: [u8; 32] = match nonce {
        Some(n) => n,
        None => blank,
    };
    let challenge: Result<RegistrationChallenge, AppError> = begin_at(
        request,
        facts,
        dest_instance_key,
        dest_domain,
        drawn,
        now,
    );
    if challenge.is_ok() && nonce.is_none() {
        return Err(AppError::code(ErrorCode::Internal));
    }
    challenge
}

/// Begins the ceremony with a nonce and at a time.
pub fn begin_at(
    request: &BeginRequest,
    facts: &BeginFacts,
    dest_instance_key: &[u8; 32],
    dest_domain: &str,
    nonce: [u8; 32],
    now_ms: u64,
) -> (challenge: Result<RegistrationChallenge, AppError>)
    ensures
        is_beginning(
            challenge,
            request.user_key@,
            *facts,
            dest_instance_key@,
            dest_domain@,
            nonce@,
            now_ms,
        ),
{
    if let Some(message) = facts.name_error {
        return Err(AppError::with_message(ErrorCode::InvalidDisplayName, message));
    }
    let user_key: [u8; 32] = match decode_hex32(request.user_key.as_str()) {
        Some(k) => k,
        None => return Err(AppError::with_message(ErrorCode::BadRequest, "invalid user_key")),
    };
    if facts.name_taken {
        return Err(AppError::code(ErrorCode::DisplayNameTaken));
    }
    if facts.key_taken {
        return Err(AppError::with_message(ErrorCode::BadRequest, "user_key_taken"));
    }
    Ok(
        RegistrationChallenge {
            user_key,
            dest_instance_key: *dest_instance_key,
            dest_domain: dest_domain.to_owned(),
            nonce,
            created_at: now_ms,
        },
    )
}

/// The answer to a request to begin: the challenge bytes as text.
pub fn begin_response(challenge_id: String, challenge_bytes: &[u8]) -> (response: BeginResponse)
    requires
        challenge_bytes@.len() <= usize::MAX / 4,
    ensures
        response.challenge_id == challenge_id,
        response.registration_challenge@ == base64_text::base64_encoding(challenge_bytes@),
        base64_text::base64_decoding(response.registration_challenge@) == Some(challenge_bytes@),
{
    BeginResponse { challenge_id, registration_challenge: to_base64(challenge_bytes) }
}

/// The byte strings of a request to complete.
#[derive(Debug)]
pub struct CompleteFields {
    pub challenge: Vec<u8>,
    pub signature: Vec<u8>,
    pub private_key: Vec<u8>,
}

/// Why the byte strings of a request to complete cannot be read, if they
/// cannot.
pub open spec fn fields_refusal(request: CompleteRequest) -> Option<Failure> {
    if base64_text::base64_decoding(request.registration_challenge@) is None {
        Some(
            error::told(
                ErrorCode::BadRequest,
                "registration_challenge is not valid base64"@,
            ),
        )
    } else if base64_text::base64_decoding(request.signature@) is None {
        Some(error::told(ErrorCode::BadRequest, "signature is not valid base64"@))
    } else if base64_text::base64_decoding(request.private_key@) is None {
        Some(error::told(ErrorCode::BadRequest, "private_key is not valid base64"@))
    } else {
        None
    }
}

/// Whether `fields` are the byte strings of a request to complete.
pub open spec fn are_fields_of(fields: CompleteFields, request: CompleteRequest) -> bool {
    &&& base64_text::base64_decoding(request.registration_challenge@) == Some(fields.challenge@)
    &&& base64_text::base64_decoding(request.signature@) == Some(fields.signature@)
    &&& base64_text::base64_decoding(request.private_key@) == Some(fields.private_key@)
}

/// Reads the byte strings of a request to complete.
pub fn decode_fields(request: &CompleteRequest) -> (fields: Result<CompleteFields, AppError>)
    ensures
        match fields {
            Ok(f) => fields_refusal(*request) is None && are_fields_of(f, *request),
            Err(e) => fields_refusal(*request) == Some(e@),
        },
{
    let challenge: Vec<u8> = match from_base64(request.registration_challenge.as_str()) {
        Some(b) => b,
        None => return Err(
            AppError::with_message(
                ErrorCode::BadRequest,
                "registration_challenge is not valid base64",
            ),
        ),
    };
    let signature: Vec<u8> = match from_base64(request.signature.as_str()) {
        Some(b) => b,
        None => return Err(
            AppError::with_message(ErrorCode::BadRequest, "signature is not valid base64"),
        ),
    };
    let private_key: Vec<u8> = match from_base64(request.private_key.as_str()) {
        Some(b) => b,
        None => return Err(
            AppError::with_message(ErrorCode::BadRequest, "private_key is not valid base64"),
        ),
    };
    Ok(CompleteFields { challenge, signature, private_key })
}

/// The record of a ceremony that began.
#[derive(Debug)]
pub struct Ceremony {
    pub display_name: Option<String>,
    pub user_id: Option<String>,
}

/// Who the account of a ceremony is for.
#[derive(Debug)]
pub struct NewAccount {
    pub display_name: String,
    pub user_id: String,
}

/// Why a ceremony cannot be completed, if it cannot: it did not begin, or its
/// record is spoiled. `state_sound` says whether the state of its passkey can
/// be read.
pub open spec fn ceremony_refusal(ceremony: Option<Ceremony>, state_sound: bool) -> Option<
    Failure,
> {
    match ceremony {
        None => Some(error::failure(ErrorCode::InvalidChallenge)),
        Some(c) => if c.display_name is None || c.user_id is None || !state_sound {
            Some(error::failure(ErrorCode::Internal))
        } else {
            None
        },
    }
}

/// Finds the account that a ceremony set aside.
pub fn open_ceremony(ceremony: Option<Ceremony>, state_sound: bool) -> (account: Result<
    NewAccount,
    AppError,
>)
    ensures
        match account {
            Ok(a) => ceremony_refusal(ceremony, state_sound) is None && Some(a.display_name)
                == ceremony->Some_0.display_name && Some(a.user_id) == ceremony->Some_0.user_id,
            Err(e) => ceremony_refusal(ceremony, state_sound) == Some(e@),
        },
{
    let found: Ceremony = match ceremony {
        Some(c) => c,
        None => return Err(AppError::code(ErrorCode::InvalidChallenge)),
    };
    let display_name: String = match found.display_name {
        Some(n) => n,
        None => return Err(AppError::code(ErrorCode::Internal)),
    };
    let user_id: String = match found.user_id {
        Some(u) => u,
        None => return Err(AppError::code(ErrorCode::Internal)),
    };
    if !state_sound {
        return Err(AppError::code(ErrorCode::Internal));
    }
    Ok(NewAccount { display_name, user_id })
}

/// What the user's key, signature and private key prove.
#[derive(Clone, Copy, Debug)]
pub struct KeyProof {
    /// Whether the key of the challenge is a key at all.
    pub key_valid: bool,
    /// Whether the challenge is signed under it.
    pub signature_holds: bool,
    /// The public key of the private key, where that has its length.
    pub private_key_belongs_to: Option<[u8; 32]>,
}

/// Why an answer is refused, if it is.
pub open spec fn complete_refusal(
    parsed: Parsed,
    own_key: Seq<u8>,
    own_domain: Seq<char>,
    now_ms: u64,
    proof_of_key: KeyProof,
) -> Option<Failure> {
    match parsed {
        Err(_) => Some(error::told(ErrorCode::BadRequest, "challenge schema_invalid"@)),
        Ok(SignedPayload::RegistrationChallenge(c)) => if c.dest_instance_key@ != own_key {
            Some(error::told(ErrorCode::BadRequest, "wrong_destination_key"@))
        } else if c.dest_domain@ != own_domain {
            Some(error::told(ErrorCode::BadRequest, "wrong_destination_domain"@))
        } else if now_ms - c.created_at > REGISTRATION_CHALLENGE_TTL_MS {
            Some(error::told(ErrorCode::BadRequest, "expired_challenge"@))
        } else if !proof_of_key.key_valid {
            Some(
                error::told(ErrorCode::BadRequest, "user_key is not a valid Ed25519 pubkey"@),
            )
        } else if !proof_of_key.signature_holds {
            Some(error::told(ErrorCode::BadRequest, "invalid_signature"@))
        } else if proof_of_key.private_key_belongs_to is None {
            Some(error::told(ErrorCode::BadRequest, "private_key length"@))
        } else if proof_of_key.private_key_belongs_to->Some_0@ != c.user_key@ {
            Some(error::told(ErrorCode::BadRequest, "key_mismatch"@))
        } else {
            None
        },
        Ok(_) => Some(
            error::told(ErrorCode::BadRequest, "challenge is not a registration-challenge"@),
        ),
    }
}

/// Decides on an answer, by what the user's key proves.
pub fn judge_complete(
    parsed: &Parsed,
    own_key: &[u8; 32],
    own_domain: &str,
    now_ms: u64,
    proof_of_key: &KeyProof,
) -> (verdict: Result<(), AppError>)
    ensures
        match verdict {
            Ok(_) => complete_refusal(*parsed, own_key@, own_domain@, now_ms, *proof_of_key)
                is None,
            Err(e) => complete_refusal(*parsed, own_key@, own_domain@, now_ms, *proof_of_key)
                == Some(e@),
        },
{
    let challenge: &RegistrationChallenge = match parsed {
        Ok(SignedPayload::RegistrationChallenge(c)) => c,
        Ok(_) => return Err(
            AppError::with_message(
                ErrorCode::BadRequest,
                "challenge is not a registration-challenge",
            ),
        ),
        Err(_) => return Err(
            AppError::with_message(ErrorCode::BadRequest, "challenge schema_invalid"),
        ),
    };
    if !same_key(&challenge.dest_instance_key, own_key) {
        return Err(AppError::with_message(ErrorCode::BadRequest, "wrong_destination_key"));
    }
    if !same_text(challenge.dest_domain.as_str(), own_domain) {
        return Err(AppError::with_message(ErrorCode::BadRequest, "wrong_destination_domain"));
    }
    if now_ms.saturating_sub(challenge.created_at) > REGISTRATION_CHALLENGE_TTL_MS {
        return Err(AppError::with_message(ErrorCode::BadRequest, "expired_challenge"));
    }
    if !proof_of_key.key_valid {
        return Err(
            AppError::with_message(
                ErrorCode::BadRequest,
                "user_key is not a valid Ed25519 pubkey",
            ),
        );
    }
    if !proof_of_key.signature_holds {
        return Err(AppError::with_message(ErrorCode::BadRequest, "invalid_signature"));
    }
    let owner: &[u8; 32] = match &proof_of_key.private_key_belongs_to {
        Some(k) => k,
        None => return Err(AppError::with_message(ErrorCode::BadRequest, "private_key length")),
    };
    if !same_key(owner, &challenge.user_key) {
        return Err(AppError::with_message(ErrorCode::BadRequest, "key_mismatch"));
    }
    Ok(())
}

/// What a key, a signature over the challenge and a private key prove.
pub open spec fn key_proof_of(
    user_key: Seq<u8>,
    challenge: Seq<u8>,
    signature: Seq<u8>,
    private_key: Seq<u8>,
    found: KeyProof,
) -> bool {
    &&& found.key_valid == crypto::ed25519_key_valid(user_key)
    &&& found.signature_holds == crypto::ed25519_verifies(user_key, challenge, signature)
    &&& match found.private_key_belongs_to {
        Some(k) => private_key.len() == 32 && k@ == crypto::ed25519_public_key(private_key),
        None => private_key.len() != 32,
    }
}

/// Finds out what a key, a signature over the challenge and a private key
/// prove.
fn prove_key(
    user_key: &[u8; 32],
    challenge: &[u8],
    signature: &[u8],
    private_key: &[u8],
) -> (found: KeyProof)
    ensures
        key_proof_of(user_key@, challenge@, signature@, private_key@, found),
{
    KeyProof {
        key_valid: key_is_valid(user_key),
        signature_holds: signature_holds(user_key, challenge, signature),
        private_key_belongs_to: match key_from_slice(private_key) {
            Some(seed) => Some(public_key_of(&seed)),
            None => None,
        },
    }
}

/// Decides on the byte strings of an answer: `parsed` is what its challenge
/// bytes parse to.
pub fn verify_answer(
    fields: &CompleteFields,
    parsed: &Parsed,
    own_key: &[u8; 32],
    own_domain: &str,
    now_ms: u64,
) -> (verdict: Result<(), AppError>)
    ensures
        is_verdict_on(*fields, *parsed, own_key@, own_domain@, now_ms, refusal_of(verdict)),
{
    let found: KeyProof = match parsed {
        Ok(SignedPayload::RegistrationChallenge(c)) => prove_key(
            &c.user_key,
            fields.challenge.as_slice(),
            fields.signature.as_slice(),
            fields.private_key.as_slice(),
        ),
        _ => KeyProof {
            key_valid: false,
            signature_holds: false,
            private_key_belongs_to: None,
        },
    };
    judge_complete(parsed, own_key, own_domain, now_ms, &found)
}

/// The refusal in a verdict.
pub open spec fn refusal_of<T>(verdict: Result<T, AppError>) -> Option<Failure> {
    match verdict {
        Ok(_) => None,
        Err(e) => Some(e@),
    }
}

/// Whether `refusal` is what becomes of the byte strings of an answer, by what
/// the keys and the signature among them prove.
pub open spec fn is_verdict_on(
    fields: CompleteFields,
    parsed: Parsed,
    own_key: Seq<u8>,
    own_domain: Seq<char>,
    now_ms: u64,
    refusal: Option<Failure>,
) -> bool {
    match parsed {
        Ok(SignedPayload::RegistrationChallenge(c)) => exists|found: KeyProof| #[trigger]
            key_proof_of(
                c.user_key@,
                fields.challenge@,
                fields.signature@,
                fields.private_key@,
                found,
            ) && refusal == complete_refusal(parsed, own_key, own_domain, now_ms, found),
        Ok(_) => refusal == Some(
            error::told(ErrorCode::BadRequest, "challenge is not a registration-challenge"@),
        ),
        Err(_) => refusal == Some(
            error::told(ErrorCode::BadRequest, "challenge schema_invalid"@),
        ),
    }
}

/// Whether `account` is what becomes of an answer, up to the passkey.
pub open spec fn is_completion(
    account: Result<NewAccount, AppError>,
    request: CompleteRequest,
    ceremony: Option<Ceremony>,
    state_sound: bool,
    parsed: Parsed,
    own_key: Seq<u8>,
    own_domain: Seq<char>,
    now_ms: u64,
) -> bool {
    &&& if fields_refusal(request) is Some {
        refusal_of(account) == fields_refusal(request)
    } else if ceremony_refusal(ceremony, state_sound) is Some {
        refusal_of(account) == ceremony_refusal(ceremony, state_sound)
    } else {
        exists|fields: CompleteFields| #[trigger]
            are_fields_of(fields, request) && is_verdict_on(
                fields,
                parsed,
                own_key,
                own_domain,
                now_ms,
                refusal_of(account),
            )
    }
    &&& account matches Ok(a) ==> Some(a.display_name) == ceremony->Some_0.display_name && Some(
        a.user_id,
    ) == ceremony->Some_0.user_id
}

/// Completes the ceremony at this time, up to the passkey: `parsed` is what
/// the challenge bytes of the request parse to, and `state_sound` says whether
/// the stored state of the passkey can be read.
pub fn complete(
    request: &CompleteRequest,
    ceremony: Option<Ceremony>,
    state_sound: bool,
    parsed: &Parsed,
    own_key: &[u8; 32],
    own_domain: &str,
) -> (account: Result<NewAccount, AppError>)
    ensures
        exists|now_ms: u64| #[trigger]
            is_completion(
                account,
                *request,
                ceremony,
                state_sound,
                *parsed,
                own_key@,
                own_domain@,
                now_ms,
            ),
{
    let now: u64 = now_ms();
    complete_at(request, ceremony, state_sound, parsed, own_key, own_domain, now)
}

/// Completes the ceremony at a time, up to the passkey.
pub fn complete_at(
    request: &CompleteRequest,
    ceremony: Option<Ceremony>,
    state_sound: bool,
    parsed: &Parsed,
    own_key: &[u8; 32],
    own_domain: &str,
    now_ms: u64,
) -> (account: Result<NewAccount, AppError>)
    ensures
        is_completion(
            account,
            *request,
            ceremony,
            state_sound,
            *parsed,
            own_key@,
            own_domain@,
            now_ms,
        ),
{
    let fields: CompleteFields = match decode_fields(request) {
        Ok(f) => f,
        Err(e) => return Err(e),
    };
    let account: NewAccount = match open_ceremony(ceremony, state_sound) {
        Ok(a) => a,
        Err(e) => return Err(e),
    };
    match verify_answer(&fields, parsed, own_key, own_domain, now_ms) {
        Ok(_) => Ok(account),
        Err(e) => {
            assert(are_fields_of(fields, *request));
            Err(e)
        },
    }
}

/// The record of a nonce that was handed out.
#[derive(Debug)]
pub struct NonceRecord {
    pub consumed: bool,
    pub user_key: Vec<u8>,
}

/// Whether a nonce is there to be used by the holder of a key.
pub open spec fn nonce_is_usable(nonce: Option<NonceRecord>, user_key: Seq<u8>) -> bool {
    nonce matches Some(n) && !n.consumed && n.user_key@ == user_key
}

/// What was found when the answer was about to be settled.
#[derive(Debug)]
pub struct SettleFacts {
    pub nonce: Option<NonceRecord>,
    /// Whether the record of the ceremony was still there to be removed.
    pub ceremony_removed: bool,
    pub key_taken: bool,
    pub name_taken: bool,
}

/// Why an answer that proved the key does not make an account, if it does
/// not.
pub open spec fn settle_refusal(user_key: Seq<u8>, facts: SettleFacts) -> Option<Failure> {
    if !nonce_is_usable(facts.nonce, user_key) {
        Some(error::told(ErrorCode::BadRequest, "invalid_signature"@))
    } else if !facts.ceremony_removed {
        Some(error::failure(ErrorCode::InvalidChallenge))
    } else if facts.key_taken {
        Some(error::told(ErrorCode::BadRequest, "user_key_taken"@))
    } else if facts.name_taken {
        Some(error::failure(ErrorCode::DisplayNameTaken))
    } else {
        None
    }
}

/// Decides whether an answer that proved the key makes an account.
pub fn settle(user_key: &[u8; 32], facts: &SettleFacts) -> (verdict: Result<(), AppError>)
    ensures
        match verdict {
            Ok(_) => settle_refusal(user_key@, *facts) is None,
            Err(e) => settle_refusal(user_key@, *facts) == Some(e@),
        },
{
    let usable: bool = match &facts.nonce {
        Some(n) => !n.consumed && same_bytes(n.user_key.as_slice(), user_key.as_slice()),
        None => false,
    };
    if !usable {
        return Err(AppError::with_message(ErrorCode::BadRequest, "invalid_signature"));
    }
    if !facts.ceremony_removed {
        return Err(AppError::code(ErrorCode::InvalidChallenge));
    }
    if facts.key_taken {
        return Err(AppError::with_message(ErrorCode::BadRequest, "user_key_taken"));
    }
    if facts.name_taken {
        return Err(AppError::code(ErrorCode::DisplayNameTaken));
    }
    Ok(())
}

/// Whether the move of a new user is told: they named where they come from,
/// and it is an active peer with a sound key.
pub open spec fn move_is_told(from: Option<Seq<char>>, peer_key: Option<Seq<u8>>) -> bool {
    from is Some && from->Some_0.len() > 0 && peer_key is Some && peer_key->Some_0.len() == 32
}

/// The move of a new user, where it is told. `peer_key` is the stored key of
/// the active peer under the domain that the user named.
pub fn authored_move(
    user_key: &[u8; 32],
    from: &Option<String>,
    peer_key: &Option<Vec<u8>>,
    own_key: &[u8; 32],
    own_domain: &str,
    now_ms: u64,
) -> (told: Option<Move>)
    ensures
        told is Some <==> move_is_told(
            match *from {
                Some(d) => Some(d@),
                None => None,
            },
            match *peer_key {
                Some(k) => Some(k@),
                None => None,
            },
        ),
        told matches Some(m) ==> m.key@ == user_key@ && m.from_instance_key@
            == peer_key->Some_0@ && m.from_instance@ == from->Some_0@ && m.to_instance_key@
            == own_key@ && m.to_instance@ == own_domain@ && m.created_at == now_ms
            && m.prior_move_hash is None,
{
    let domain: &String = match from {
        Some(d) => d,
        None => return None,
    };
    if same_text(domain.as_str(), "") {
        proof {
            reveal_strlit("");
        }
        return None;
    }
    let stored: &Vec<u8> = match peer_key {
        Some(k) => k,
        None => return None,
    };
    let from_instance_key: [u8; 32] = match key_from_slice(stored.as_slice()) {
        Some(k) => k,
        None => return None,
    };
    proof {
        reveal_strlit("");
        if domain@.len() == 0 {
            assert(domain@ =~= ""@);
        }
    }
    Some(
        Move {
            key: *user_key,
            from_instance_key,
            from_instance: domain.clone(),
            to_instance_key: *own_key,
            to_instance: own_domain.to_owned(),
            created_at: now_ms,
            prior_move_hash: None,
        },
    )
}

/// An answer that is let through was signed under the key of the challenge by
/// whoever holds its private key, for this instance, and in time.
pub proof fn law_account_key_is_proved(
    c: RegistrationChallenge,
    own_key: Seq<u8>,
    own_domain: Seq<char>,
    now_ms: u64,
    found: KeyProof,
    challenge: Seq<u8>,
    signature: Seq<u8>,
    private_key: Seq<u8>,
)
    requires
        key_proof_of(c.user_key@, challenge, signature, private_key, found),
        complete_refusal(
            Ok(SignedPayload::RegistrationChallenge(c)),
            own_key,
            own_domain,
            now_ms,
            found,
        ) is None,
    ensures
        crypto::ed25519_verifies(c.user_key@, challenge, signature),
        crypto::ed25519_public_key(private_key) == c.user_key@,
        c.dest_instance_key@ == own_key,
        c.dest_domain@ == own_domain,
        now_ms <= c.created_at + REGISTRATION_CHALLENGE_TTL_MS,
{
}

/// A nonce makes one account: once it is consumed, every answer that uses it
/// is refused.
pub proof fn law_nonce_is_used_once(user_key: Seq<u8>, facts: SettleFacts)
    requires
        facts.nonce is Some,
        facts.nonce->Some_0.consumed,
    ensures
        settle_refusal(user_key, facts) is Some,
{
}

/// A refusal tells nothing of the nonce: one that was never handed out, one
/// that was consumed and one that was handed out for another key are all
/// refused alike, and like a signature that does not hold.
pub proof fn law_refusals_do_not_tell_of_nonces(
    user_key: Seq<u8>,
    facts: SettleFacts,
    other: SettleFacts,
)
    requires
        !nonce_is_usable(facts.nonce, user_key),
        !nonce_is_usable(other.nonce, user_key),
    ensures
        settle_refusal(user_key, facts) == settle_refusal(user_key, other),
        settle_refusal(user_key, facts) == Some(
            error::told(ErrorCode::BadRequest, "invalid_signature"@),
        ),
{
}

/// The challenge that the ceremony begins with is good for its own instance
/// while it is fresh: whoever proves its key completes the ceremony.
pub proof fn law_fresh_challenge_completes(
    c: RegistrationChallenge,
    now_ms: u64,
    found: KeyProof,
)
    requires
        now_ms <= c.created_at + REGISTRATION_CHALLENGE_TTL_MS,
        found.key_valid,
        found.signature_holds,
        found.private_key_belongs_to is Some,
        found.private_key_belongs_to->Some_0@ == c.user_key@,
    ensures
        complete_refusal(
            Ok(SignedPayload::RegistrationChallenge(c)),
            c.dest_instance_key@,
            c.dest_domain@,
            now_ms,
            found,
        ) is None,
{
}

/// The ceremony begins exactly where the name is in order, the key can be
/// read, and no user has either. It begins with a challenge for that key, at
/// this instance and this domain.
pub proof fn law_the_ceremony_begins_for_a_new_user(
    request: &BeginRequest,
    facts: &BeginFacts,
    dest_instance_key: &[u8; 32],
    dest_domain: &str,
    nonce: [u8; 32],
    now_ms: u64,
    challenge: Result<RegistrationChallenge, AppError>,
)
    requires
        call_ensures(
            begin_at,
            (request, facts, dest_instance_key, dest_domain, nonce, now_ms),
            challenge,
        ),
    ensures
        ({
            let key = text::unhex32(encode_utf8(request.user_key@), true);
            &&& challenge is Ok <==> facts.name_error is None && key is Some && !facts.name_taken
                && !facts.key_taken
            &&& challenge matches Ok(c) ==> c.user_key@ == key->Some_0 && c.dest_instance_key@
                == dest_instance_key@ && c.dest_domain@ == dest_domain@ && c.nonce@ == nonce@
                && c.created_at == now_ms
            &&& challenge matches Err(e) ==> {
                &&& facts.name_error is Some ==> e.code is InvalidDisplayName
                &&& facts.name_error is None && key is None ==> e.code is BadRequest
                &&& facts.name_error is None && key is Some && facts.name_taken ==> e.code
                    is DisplayNameTaken
                &&& facts.name_error is None && key is Some && !facts.name_taken ==> e.code
                    is BadRequest
            }
        }),
{
    if let Err(e) = challenge {
        assert(e@.code == e.code);
    }
}

/// Whoever holds the key of a challenge completes the ceremony: an answer of
/// which everything can be read is taken where its challenge is for this
/// instance and this domain and no older than ten minutes, it is signed under
/// the key of the challenge, and the private key with it belongs to that key.
/// The account has the name and the id that the ceremony set aside.
pub proof fn law_the_holder_of_the_key_completes(
    request: &CompleteRequest,
    ceremony: Option<Ceremony>,
    c: RegistrationChallenge,
    own_key: &[u8; 32],
    own_domain: &str,
    now_ms: u64,
    account: Result<NewAccount, AppError>,
    challenge: Seq<u8>,
    signature: Seq<u8>,
    private_key: Seq<u8>,
)
    requires
        call_ensures(
            complete_at,
            (
                request,
                ceremony,
                true,
                &Ok(SignedPayload::RegistrationChallenge(c)),
                own_key,
                own_domain,
                now_ms,
            ),
            account,
        ),
        base64_text::base64_decoding(request.registration_challenge@) == Some(challenge),
        base64_text::base64_decoding(request.signature@) == Some(signature),
        base64_text::base64_decoding(request.private_key@) == Some(private_key),
        ceremony matches Some(s) && s.display_name is Some && s.user_id is Some,
    ensures
        ({
            let here = c.dest_instance_key@ == own_key@ && c.dest_domain@ == own_domain@;
            let fresh = now_ms - c.created_at <= 600_000;
            let proved = crypto::ed25519_key_valid(c.user_key@) && crypto::ed25519_verifies(
                c.user_key@,
                challenge,
                signature,
            ) && private_key.len() == 32 && crypto::ed25519_public_key(private_key)
                == c.user_key@;
            &&& account is Ok <==> here && fresh && proved
            &&& account matches Ok(a) ==> Some(a.display_name) == ceremony->Some_0.display_name
                && Some(a.user_id) == ceremony->Some_0.user_id
            &&& account matches Err(e) ==> e.code is BadRequest
        }),
{
    if let Err(e) = account {
        assert(e@.code == e.code);
    }
}

/// No ceremony is completed that did not begin, whose record is spoiled, or of
/// whose answer something cannot be read.
pub proof fn law_spoiled_ceremonies_end_nowhere(
    request: &CompleteRequest,
    ceremony: Option<Ceremony>,
    state_sound: bool,
    parsed: &Parsed,
    own_key: &[u8; 32],
    own_domain: &str,
    now_ms: u64,
    account: Result<NewAccount, AppError>,
)
    requires
        call_ensures(
            complete_at,
            (request, ceremony, state_sound, parsed, own_key, own_domain, now_ms),
            account,
        ),
    ensures
        ({
            let readable = base64_text::base64_decoding(request.registration_challenge@) is Some
                && base64_text::base64_decoding(request.signature@) is Some
                && base64_text::base64_decoding(request.private_key@) is Some;
            &&& !readable ==> account is Err && account->Err_0.code is BadRequest
            &&& readable && ceremony is None ==> account is Err && account->Err_0.code
                is InvalidChallenge
            &&& readable && (ceremony matches Some(s) && (s.display_name is None || s.user_id
                is None || !state_sound)) ==> account is Err && account->Err_0.code is Internal
            &&& !(*parsed matches Ok(p) && p is RegistrationChallenge) ==> account is Err
        }),
{
    if let Err(e) = account {
        assert(e@.code == e.code);
    }
}

/// An answer that proved the key makes an account exactly where its nonce was
/// handed out for that key and is unused, the ceremony is still there, and no
/// user took the key or the name meanwhile.
pub proof fn law_proved_keys_make_accounts(
    user_key: &[u8; 32],
    facts: &SettleFacts,
    verdict: Result<(), AppError>,
)
    requires
        call_ensures(settle, (user_key, facts), verdict),
    ensures
        ({
            let usable = facts.nonce matches Some(n) && !n.consumed && n.user_key@ == user_key@;
            &&& verdict is Ok <==> usable && facts.ceremony_removed && !facts.key_taken
                && !facts.name_taken
            &&& !usable ==> verdict->Err_0.code is BadRequest
            &&& usable && !facts.ceremony_removed ==> verdict->Err_0.code is InvalidChallenge
            &&& usable && facts.ceremony_removed && facts.key_taken ==> verdict->Err_0.code
                is BadRequest
            &&& usable && facts.ceremony_removed && !facts.key_taken && facts.name_taken
                ==> verdict->Err_0.code is DisplayNameTaken
        }),
{
    if let Err(e) = verdict {
        assert(e@.code == e.code);
    }
}

/// A new user's move is told exactly where they named where they come from and
/// that is an active peer with a key: it leads from there to here, and follows
/// no other move.
pub proof fn law_moves_of_new_users_lead_here(
    user_key: &[u8; 32],
    from: &Option<String>,
    peer_key: &Option<Vec<u8>>,
    own_key: &[u8; 32],
    own_domain: &str,
    now_ms: u64,
    told: Option<Move>,
)
    requires
        call_ensures(
            authored_move,
            (user_key, from, peer_key, own_key, own_domain, now_ms),
            told,
        ),
    ensures
        told is Some <==> (*from matches Some(d) && d@.len() > 0) && (*peer_key matches Some(k)
            && k@.len() == 32),
        told matches Some(m) ==> {
            &&& m.key@ == user_key@
            &&& m.from_instance@ == from->Some_0@ && m.from_instance_key@ == peer_key->Some_0@
            &&& m.to_instance@ == own_domain@ && m.to_instance_key@ == own_key@
            &&& m.created_at == now_ms
            &&& m.prior_move_hash is None
        },
{
}

/// What the user is handed to sign is the challenge, in base64, under the id of
/// the ceremony.
pub proof fn law_users_are_handed_the_challenge(
    challenge_id: String,
    challenge_bytes: &[u8],
    response: BeginResponse,
)
    requires
        challenge_bytes@.len() <= usize::MAX / 4,
        call_ensures(begin_response, (challenge_id, challenge_bytes), response),
    ensures
        response.challenge_id == challenge_id,
        base64_text::base64_decoding(response.registration_challenge@) == Some(challenge_bytes@),
{
}

/// The byte strings of an answer are each read from their own field.
pub proof fn law_fields_are_read_from_their_place(
    request: &CompleteRequest,
    fields: Result<CompleteFields, AppError>,
)
    requires
        call_ensures(decode_fields, (request,), fields),
    ensures
        fields is Ok <==> base64_text::base64_decoding(request.registration_challenge@) is Some
            && base64_text::base64_decoding(request.signature@) is Some
            && base64_text::base64_decoding(request.private_key@) is Some,
        fields matches Ok(f) ==> {
            &&& base64_text::base64_decoding(request.registration_challenge@) == Some(f.challenge@)
            &&& base64_text::base64_decoding(request.signature@) == Some(f.signature@)
            &&& base64_text::base64_decoding(request.private_key@) == Some(f.private_key@)
        },
        fields matches Err(e) ==> e.code is BadRequest,
{
    if let Err(e) = fields {
        assert(e@.code == e.code);
    }
}

/// A ceremony that began, with everything on record, sets its account aside.
pub proof fn law_ceremonies_set_their_account_aside(
    ceremony: Option<Ceremony>,
    state_sound: bool,
    account: Result<NewAccount, AppError>,
)
    requires
        call_ensures(open_ceremony, (ceremony, state_sound), account),
    ensures
        account is Ok <==> state_sound && (ceremony matches Some(c) && c.display_name is Some
            && c.user_id is Some),
        account matches Ok(a) ==> Some(a.display_name) == ceremony->Some_0.display_name && Some(
            a.user_id,
        ) == ceremony->Some_0.user_id,
        ceremony is None ==> account->Err_0.code is InvalidChallenge,
        ceremony is Some && account is Err ==> account->Err_0.code is Internal,
{
    if let Err(e) = account {
        assert(e@.code == e.code);
    }
}

/// An answer is let through by what the key proves exactly where its challenge
/// is for this instance and this domain, is no older than ten minutes, names a
/// key that is one and signed it, and the private key with it is that key's.
pub proof fn law_answers_are_judged_by_the_key(
    c: RegistrationChallenge,
    own_key: &[u8; 32],
    own_domain: &str,
    now_ms: u64,
    found: &KeyProof,
    verdict: Result<(), AppError>,
)
    requires
        call_ensures(
            judge_complete,
            (
                &Ok(SignedPayload::RegistrationChallenge(c)),
                own_key,
                own_domain,
                now_ms,
                found,
            ),
            verdict,
        ),
    ensures
        verdict is Ok <==> c.dest_instance_key@ == own_key@ && c.dest_domain@ == own_domain@
            && now_ms <= c.created_at + 600_000 && found.key_valid && found.signature_holds && (
        found.private_key_belongs_to matches Some(k) && k@ == c.user_key@),
        verdict matches Err(e) ==> e.code is BadRequest,
{
    if let Err(e) = verdict {
        assert(e@.code == e.code);
    }
}

/// Whatever else is answered, nothing but a registration challenge is let
/// through.
pub proof fn law_other_objects_register_nobody(
    parsed: &Parsed,
    own_key: &[u8; 32],
    own_domain: &str,
    now_ms: u64,
    found: &KeyProof,
    verdict: Result<(), AppError>,
    fields: &CompleteFields,
    answered: Result<(), AppError>,
)
    requires
        call_ensures(judge_complete, (parsed, own_key, own_domain, now_ms, found), verdict),
        call_ensures(verify_answer, (fields, parsed, own_key, own_domain, now_ms), answered),
        !(*parsed matches Ok(p) && p is RegistrationChallenge),
    ensures
        verdict is Err && verdict->Err_0.code is BadRequest,
        answered is Err && answered->Err_0.code is BadRequest,
{
    assert(verdict->Err_0@.code == verdict->Err_0.code);
    assert(answered->Err_0@.code == answered->Err_0.code);
}

/// A key is read from its hexadecimal form, in digits of either case.
pub proof fn law_keys_are_read_from_hexadecimal(
    s: &str,
    bytes: Option<[u8; 32]>,
    key: Seq<u8>,
)
    requires
        call_ensures(decode_hex32, (s,), bytes),
        key.len() == 32,
        s@ == text::hex(key),
    ensures
        bytes matches Some(k) && k@ == key,
{
    text::law_hex_reads_back(key, true);
}

} // verus!
